//! Outlining: a function that is too large for one JVM method becomes several methods that call one
//! another.
use crate::carrier::{
    all_have_slots,
    allocation,
    arrays_of,
    build_carrier_plan,
    carrier_allocations,
    carrier_array_type,
    carrier_loads,
    carrier_has_a_slot_for_each_live_variable,
    carrier_stores,
    carrier_type,
    default_constant,
    default_of,
    has_slot,
    int_operand,
    is_carrier,
    is_union,
    lemma_slots_distinct,
    listed_by_kind,
    live_at_one,
    live_later,
    loads,
    slots,
    slots_distinct,
    slots_of,
    stores,
    type_slots,
    union_of,
    CarrierArray, CarrierArrayModel, CATEGORIES,
};
use crate::chunks::{
    body_cost,
    chunk_labels,
    chunks_are_a_partition,
    component_costs,
    costs_of,
    group_labels,
    groups,
    is_partition,
    pack_components,
    total_cost,
    MAX_CHUNK_COST,
};
use crate::components::{
    all_reachable,
    component_schedule,
    in_topological_order,
    label_covered,
    label_edge,
    label_leads,
    label_path,
    label_reach,
    label_step,
    labels_sorted,
    lemma_sorted_distinct,
    insert_label,
    sorted_labels,
    topological_components,
    UNREACHABLE_MESSAGE,
};
use crate::error::{verification_failure, Error};
use crate::flow::{
    collect_variable_types,
    has_type,
    successor_map,
    successor_model,
    successors_of,
    uses_name,
    variable_position,
    Variable,
    VariableModel,
};
use crate::graph::lists;
use crate::liveness::{closed_body, is_live_list, live_variables, LiveVariables};
use crate::name_map::NameMap;
use crate::names::{short_hash, shortened};
use crate::oomir::{
    has_value,
    BasicBlock,
    BasicBlockModel,
    CodeBlock,
    CodeBlockModel,
    Constant,
    ConstantModel,
    Duplicate,
    Function,
    FunctionModel,
    Instruction,
    InstructionModel,
    Operand,
    OperandModel,
    Signature,
    SignatureModel,
    Text,
    Type,
    TypeModel,
};
use crate::text::{cat2, cat4, cat5, decimal, decimal_text, same};
use vstd::prelude::*;
use vstd::string::*;

verus! {

/// What stands in front of the name of an outlined method.
pub const METHOD_PREFIX: &'static str = "$outlined$";

/// What stands in front of the name of a parameter that an outlined method restores.
pub const PARAMETER_PREFIX: &'static str = "$oomir$";

/// The variable that tells an outlined method at which of its entries to begin.
pub const SELECTOR: &'static str = "__outlined_selector";

/// The variable that takes the result of an outlined method.
pub const RESULT: &'static str = "$outlined$return";

/// The greatest number of parameter slots that are passed without a carrier.
pub const MAX_PARAMETER_SLOTS: usize = 250;

/// The text whose digest identifies the outlined parts of a function.
pub open spec fn identity_text(owner: Text, function: FunctionModel) -> Text {
    owner + "::"@ + function.name + crate::descriptor::method_descriptor(function.signature)
}

/// The text whose digest identifies the outlined parts of a function.
pub fn outline_identity(owner: &str, function: &Function) -> (r: String)
    ensures
        r@ == identity_text(owner@, function.deep_view()),
{
    cat4(owner, "::", function.name.as_str(), function.signature.to_descriptor().as_str())
}

/// How a function is divided: the labels of each chunk, the chunk of each label, the entries of
/// each
/// chunk, the live variables, the parameters of each chunk and the carrier, where one is needed.
pub struct OutlinePlan {
    pub chunks: Vec<Vec<String>>,
    pub chunk_of: NameMap<usize>,
    pub entries: Vec<Vec<String>>,
    pub live: LiveVariables,
    pub params: Vec<Vec<Variable>>,
    pub carrier: Option<Vec<CarrierArray>>,
}

/// The model of an [`OutlinePlan`].
pub struct OutlinePlanModel {
    pub chunks: Seq<Seq<Text>>,
    pub chunk_of: Map<Text, usize>,
    pub entries: Seq<Seq<Text>>,
    pub live: Map<Text, Seq<VariableModel>>,
    pub params: Seq<Seq<VariableModel>>,
    pub carrier: Option<Seq<CarrierArrayModel>>,
}

impl DeepView for OutlinePlan {
    type V = OutlinePlanModel;

    open spec fn deep_view(&self) -> OutlinePlanModel {
        OutlinePlanModel {
            chunks: self.chunks.deep_view(),
            chunk_of: self.chunk_of.map(),
            entries: self.entries.deep_view(),
            live: self.live.deep_view(),
            params: self.params.deep_view(),
            carrier: self.carrier.deep_view(),
        }
    }
}

/// Whether control enters a chunk at a label: the function starts there, or a block of another
/// chunk transfers there.
pub open spec fn is_entry(body: CodeBlockModel, chunk: Seq<Text>, label: Text) -> bool {
    chunk.contains(label) && (label == body.entry || exists|a: Text| #[trigger]
        label_edge(body, a, label) && !chunk.contains(a))
}

/// Whether a list holds exactly the entries of a chunk, in ascending order.
pub open spec fn is_entry_list(body: CodeBlockModel, chunk: Seq<Text>, list: Seq<Text>) -> bool {
    labels_sorted(list) && forall|a: Text| #[trigger] list.contains(a) <==> is_entry(body, chunk, a)
}

/// Whether each label has the chunk that holds it.
pub open spec fn chunks_located(body: CodeBlockModel, chunks: Seq<Seq<Text>>, chunk_of: Map<Text,
    usize>) -> bool {
    forall|a: Text| #[trigger] body.basic_blocks.dom().contains(a) ==> chunk_of.dom().contains(a)
        && chunk_of[a]
        < chunks.len() && chunks[chunk_of[a] as int].contains(a)
}

/// Whether the parameters of a chunk are the variables live on entry to it.
pub open spec fn are_parameters(plan: OutlinePlanModel, k: int) -> bool {
    if k == 0 {
        plan.params[k].len() == 0
    } else {
        is_union(plan.live, plan.entries[k], plan.params[k])
    }
}

/// The slots of the parameters of a chunk, with one for the selector where it has several entries.
pub open spec fn parameter_slots(plan: OutlinePlanModel, k: int) -> nat {
    (if plan.entries[k].len() > 1 {
        1nat
    } else {
        0nat
    }) + slots_of(plan.params[k])
}

/// Whether some chunk has too many parameters to pass them one by one.
pub open spec fn needs_carrier(plan: OutlinePlanModel) -> bool {
    exists|k: int| 1 <= k < plan.chunks.len()
        && #[trigger] parameter_slots(plan, k) > MAX_PARAMETER_SLOTS
}

/// Whether a plan divides a function whose components are `c` and whose names have `types`.
pub open spec fn divides(
    plan: OutlinePlanModel,
    function: FunctionModel,
    types: Map<Text, Seq<TypeModel>>,
    c: Seq<Seq<Text>>,
) -> bool {
    &&& in_topological_order(function.body, c)
    &&& component_schedule(function.body, c)
    &&& forall|name: Text, ty: TypeModel| #[trigger] has_type(types, name, ty) <==> has_value(ty)
        && uses_name(function, name, ty)
    &&& plan.chunks == chunk_labels(c, groups(component_costs(function.body.basic_blocks, c)))
    &&& is_partition(function.body, plan.chunks)
    &&& chunks_located(function.body, plan.chunks, plan.chunk_of)
    &&& plan.entries.len() == plan.chunks.len()
    &&& forall|k: int| 0 <= k < plan.chunks.len() ==> is_entry_list(
        function.body,
        plan.chunks[k],
        #[trigger] plan.entries[k],
    )
    &&& plan.live.dom() == function.body.basic_blocks.dom()
    &&& forall|a: Text| #[trigger] plan.live.dom().contains(a) ==> is_live_list(
        function.body,
        types,
        a,
        plan.live[a],
    )
    &&& plan.params.len() == plan.chunks.len()
    &&& forall|k: int| 0 <= k < plan.chunks.len() ==> #[trigger] are_parameters(plan, k)
    &&& plan.carrier is Some <==> needs_carrier(plan)
    &&& plan.carrier matches Some(arrays) ==> is_carrier(plan.live, plan.entries, arrays)
}

/// Collects the labels of each group.
fn collect_chunks(components: &Vec<Vec<String>>, gs: &Vec<Vec<usize>>) -> (r: Vec<Vec<String>>)
    requires
        forall|g: int, k: int| 0 <= g < gs@.len() && 0 <= k < gs@[g]@.len() ==> (
            #[trigger] gs@[g]@[k]
        ) < components@.len(),
    ensures
        r.deep_view() == chunk_labels(components.deep_view(), lists(gs@)),
{
    let ghost c = components.deep_view();
    let ghost all = lists(gs@);
    let mut r: Vec<Vec<String>> = Vec::new();
    let mut g: usize = 0;
    while g < gs.len()
        invariant
            g <= gs@.len(),
            c == components.deep_view(),
            all == lists(gs@),
            forall|g: int, k: int| 0 <= g < gs@.len() && 0 <= k < gs@[g]@.len() ==> (
                #[trigger] gs@[g]@[k]
            ) < components@.len(),
            r@.len() == g,
            forall|k: int| 0 <= k < g ==> (#[trigger] r@[k]).deep_view() == group_labels(c, all[k]),
        decreases gs@.len() - g,
    {
        let ghost group = gs@[g as int]@;
        let mut labels: Vec<String> = Vec::new();
        assert(labels.deep_view() =~= Seq::<Text>::empty());
        assert(group.take(0) =~= Seq::<usize>::empty());
        let mut k: usize = 0;
        while k < gs[g].len()
            invariant
                g < gs@.len(),
                group == gs@[g as int]@,
                k <= group.len(),
                c == components.deep_view(),
                forall|g: int, k: int| 0 <= g < gs@.len() && 0 <= k < gs@[g]@.len() ==> (
                    #[trigger] gs@[g]@[k]
                ) < components@.len(),
                labels.deep_view() == group_labels(c, group.take(k as int)),
            decreases group.len() - k,
        {
            assert(gs@[g as int]@[k as int] < components@.len());
            let component = &components[gs[g][k]];
            let ghost own = component.deep_view();
            assert(own == c[group[k as int] as int]);
            assert(group.take(k + 1).drop_last() =~= group.take(k as int));
            let ghost l0 = labels.deep_view();
            assert(l0 + own.take(0) =~= l0);
            for i in 0..component.len()
                invariant
                    own == component.deep_view(),
                    labels.deep_view() == l0 + own.take(i as int),
            {
                let ghost l1 = labels.deep_view();
                labels.push(component[i].clone());
                assert(labels.deep_view() =~= l1.push(own[i as int]));
                assert(own.take(i + 1) =~= own.take(i as int).push(own[i as int]));
                assert(labels.deep_view() =~= l0 + own.take(i + 1));
            }
            assert(own.take(own.len() as int) =~= own);
            k = k + 1;
        }
        assert(group.take(group.len() as int) =~= group);
        r.push(labels);
        g = g + 1;
    }
    assert(r.deep_view() =~= chunk_labels(c, all));
    r
}

/// The chunk of each label.
fn locate_chunks(body: Ghost<CodeBlockModel>, chunks: &Vec<Vec<String>>) -> (r: NameMap<usize>)
    requires
        is_partition(body@, chunks.deep_view()),
    ensures
        chunks_located(body@, chunks.deep_view(), r.map()),
{
    let ghost all = chunks.deep_view();
    let mut r: NameMap<usize> = NameMap::new();
    let mut g: usize = 0;
    while g < chunks.len()
        invariant
            g <= chunks@.len(),
            all == chunks.deep_view(),
            is_partition(body@, all),
            forall|h: int, a: Text| 0 <= h < g && #[trigger] all[h].contains(a)
                ==> r.map().dom().contains(a) && r.map()[a] == h,
        decreases chunks@.len() - g,
    {
        let list = &chunks[g];
        let ghost own = all[g as int];
        assert(own == list.deep_view());
        for i in 0..list.len()
            invariant
                g < all.len(),
                own == all[g as int],
                own == list.deep_view(),
                is_partition(body@, all),
                forall|h: int, a: Text| 0 <= h < g && #[trigger] all[h].contains(a)
                    ==> r.map().dom().contains(a) && r.map()[a] == h,
                forall|k: int| 0 <= k < i ==> r.map().dom().contains(#[trigger] own[k])
                    && r.map()[own[k]] == g,
        {
            let ghost label = own[i as int];
            assert(label == list@[i as int]@);
            assert(all[g as int].contains(label));
            r.insert(list[i].clone(), g);
        }
        assert forall|h: int, a: Text| 0 <= h < g + 1 && #[trigger] all[h].contains(a)
            implies r.map().dom().contains(a) && r.map()[a] == h by {
            if h == g {
                let k = choose|k: int| 0 <= k < own.len() && own[k] == a;
                assert(r.map().dom().contains(own[k]));
            }
        }
        g = g + 1;
    }
    assert forall|a: Text| #[trigger] body@.basic_blocks.dom().contains(a)
        implies r.map().dom().contains(a) && r.map()[a] < all.len()
        && all[r.map()[a] as int].contains(a) by {
        assert(label_covered(all, a));
        let h = choose|h: int| 0 <= h < all.len() && (#[trigger] all[h]).contains(a);
        assert(all[h].contains(a));
    }
    r
}

/// Whether a block of another chunk transfers to a label.
pub open spec fn entered_from_outside(body: CodeBlockModel, chunk_of: Map<Text, usize>, label: Text)
    -> bool {
    exists|a: Text| #[trigger] label_edge(body, a, label) && chunk_of[a] != chunk_of[label]
}

/// The labels that blocks of other chunks transfer to.
fn outside_targets(
    body: &CodeBlock,
    successors: &NameMap<Vec<String>>,
    labels: &Vec<String>,
    chunk_of: &NameMap<usize>,
) -> (r: NameMap<bool>)
    requires
        closed_body(body.deep_view()),
        successors.deep_view() == successor_model(body.deep_view()),
        forall|a: Text| #[trigger] body.deep_view().basic_blocks.dom().contains(a)
            <==> labels.deep_view().contains(a),
        forall|a: Text| #[trigger] body.deep_view().basic_blocks.dom().contains(a)
            ==> chunk_of.map().dom().contains(a),
    ensures
        forall|t: Text| #[trigger] r.map().dom().contains(t) <==> entered_from_outside(
            body.deep_view(),
            chunk_of.map(),
            t,
        ),
{
    let ghost model = body.deep_view();
    let ghost all = labels.deep_view();
    let mut r: NameMap<bool> = NameMap::new();
    let mut i: usize = 0;
    while i < labels.len()
        invariant
            i <= labels@.len(),
            model == body.deep_view(),
            all == labels.deep_view(),
            closed_body(model),
            successors.deep_view() == successor_model(model),
            forall|a: Text| #[trigger] model.basic_blocks.dom().contains(a) <==> all.contains(a),
            forall|a: Text| #[trigger] model.basic_blocks.dom().contains(a)
                ==> chunk_of.map().dom().contains(a),
            forall|t: Text| #[trigger] r.map().dom().contains(t) <==> exists|k: int| 0 <= k < i
                && label_edge(model, #[trigger] all[k], t)
                && chunk_of.map()[all[k]] != chunk_of.map()[t],
        decreases labels@.len() - i,
    {
        let ghost label = all[i as int];
        assert(label == labels@[i as int]@);
        assert(all.contains(label));
        assert(model.basic_blocks.dom().contains(label));
        let ghost out = successors_of(model.basic_blocks[label].instructions);
        assert(successors.deep_view().dom().contains(label));
        assert(successors.map().dom().contains(label));
        let targets: &Vec<String> = successors.get(labels[i].as_str()).unwrap();
        assert(targets.deep_view() == successors.deep_view()[label]);
        assert(targets.deep_view() == out);
        let own: usize = *chunk_of.get(labels[i].as_str()).unwrap();
        let ghost r0 = r.map();
        for t in 0..targets.len()
            invariant
                closed_body(model),
                model.basic_blocks.dom().contains(label),
                out == successors_of(model.basic_blocks[label].instructions),
                targets.deep_view() == out,
                own == chunk_of.map()[label],
                forall|a: Text| #[trigger] model.basic_blocks.dom().contains(a)
                    ==> chunk_of.map().dom().contains(a),
                forall|x: Text| #[trigger] r.map().dom().contains(x) <==> r0.dom().contains(x)
                    || (own != chunk_of.map()[x] && exists|k: int| 0 <= k < t
                    && #[trigger] out[k] == x),
        {
            let ghost target = out[t as int];
            assert(target == targets@[t as int]@);
            assert(out.contains(target));
            assert(model.basic_blocks.dom().contains(target));
            let other: usize = *chunk_of.get(targets[t].as_str()).unwrap();
            let ghost r1 = r.map();
            if own != other {
                r.insert(targets[t].clone(), true);
            }
            assert forall|x: Text| #[trigger] r.map().dom().contains(x) <==> r0.dom().contains(x)
                || (own != chunk_of.map()[x] && exists|k: int| 0 <= k < t + 1
                && #[trigger] out[k] == x) by {
                assert(r.map().dom().contains(x) <==> r1.dom().contains(x) || (
                    own != other && x == target
                ));
            }
        }
        assert forall|t: Text| #[trigger] r.map().dom().contains(t)
            <==> exists|k: int| 0 <= k < i + 1 && label_edge(model, #[trigger] all[k], t)
            && chunk_of.map()[all[k]] != chunk_of.map()[t] by {
            assert(out.contains(t) <==> exists|k: int| 0 <= k < out.len()
                && #[trigger] out[k] == t);
            assert(label_edge(model, label, t) <==> out.contains(t));
            assert(r0.dom().contains(t) <==> exists|k: int| 0 <= k < i && label_edge(
                model,
                #[trigger] all[k],
                t,
            ) && chunk_of.map()[all[k]] != chunk_of.map()[t]);
            assert(r.map().dom().contains(t) <==> r0.dom().contains(t) || (
                own != chunk_of.map()[t] && out.contains(t)
            ));
            if own != chunk_of.map()[t] && out.contains(t) {
                assert(label_edge(model, all[i as int], t));
            }
        }
        i = i + 1;
    }
    assert forall|t: Text| #[trigger] r.map().dom().contains(t) <==> entered_from_outside(
        model,
        chunk_of.map(),
        t,
    ) by {
        if r.map().dom().contains(t) {
            let k = choose|k: int| 0 <= k < i && label_edge(
                model,
                #[trigger] all[k],
                t,
            ) && chunk_of.map()[all[k]] != chunk_of.map()[t];
            assert(label_edge(model, all[k], t));
        }
        if entered_from_outside(model, chunk_of.map(), t) {
            let a = choose|a: Text| #[trigger] label_edge(model, a, t)
                && chunk_of.map()[a] != chunk_of.map()[t];
            assert(model.basic_blocks.dom().contains(a));
            assert(all.contains(a));
            let k = choose|k: int| 0 <= k < all.len() && all[k] == a;
            assert(label_edge(model, all[k], t));
        }
    }
    r
}

/// A label belongs to exactly the chunk that it is located in.
proof fn lemma_located(body: CodeBlockModel, chunks: Seq<Seq<Text>>, chunk_of: Map<Text, usize>,
    k: int, a: Text)
    requires
        is_partition(body, chunks),
        chunks_located(body, chunks, chunk_of),
        0 <= k < chunks.len(),
        body.basic_blocks.dom().contains(a),
    ensures
        chunks[k].contains(a) <==> chunk_of[a] == k,
{
    let h = chunk_of[a] as int;
    assert(chunks[h].contains(a));
    if chunks[k].contains(a) {
        assert(h == k);
    }
}

/// A label is an entry exactly when the function starts there or another chunk transfers there.
proof fn lemma_entry(body: CodeBlockModel, chunks: Seq<Seq<Text>>, chunk_of: Map<Text, usize>,
    k: int, a: Text)
    requires
        closed_body(body),
        is_partition(body, chunks),
        chunks_located(body, chunks, chunk_of),
        0 <= k < chunks.len(),
        body.basic_blocks.dom().contains(a),
    ensures
        is_entry(body, chunks[k], a) <==> chunk_of[a] == k && (a == body.entry
            || entered_from_outside(body, chunk_of, a)),
{
    lemma_located(body, chunks, chunk_of, k, a);
    if chunk_of[a] == k {
        assert forall|b: Text| #[trigger] label_edge(body, b, a) implies (
            chunks[k].contains(b) <==> chunk_of[b] == chunk_of[a]
        ) by {
            lemma_located(body, chunks, chunk_of, k, b);
        }
        if exists|b: Text| #[trigger] label_edge(body, b, a) && !chunks[k].contains(b) {
            let b = choose|b: Text| #[trigger] label_edge(body, b, a) && !chunks[k].contains(b);
            assert(label_edge(body, b, a) && chunk_of[b] != chunk_of[a]);
        }
        if entered_from_outside(body, chunk_of, a) {
            let b = choose|b: Text| #[trigger] label_edge(body, b, a) && chunk_of[b] != chunk_of[a];
            assert(label_edge(body, b, a) && !chunks[k].contains(b));
        }
    }
}

/// The entries of each chunk in ascending order.
fn find_entries(
    body: &CodeBlock,
    successors: &NameMap<Vec<String>>,
    chunks: &Vec<Vec<String>>,
    chunk_of: &NameMap<usize>,
) -> (r: Vec<Vec<String>>)
    requires
        closed_body(body.deep_view()),
        successors.deep_view() == successor_model(body.deep_view()),
        is_partition(body.deep_view(), chunks.deep_view()),
        chunks_located(body.deep_view(), chunks.deep_view(), chunk_of.map()),
    ensures
        r@.len() == chunks@.len(),
        forall|k: int| 0 <= k < chunks@.len() ==> is_entry_list(
            body.deep_view(),
            chunks.deep_view()[k],
            #[trigger] r.deep_view()[k],
        ),
{
    let ghost model = body.deep_view();
    let labels = sorted_labels(body);
    let ghost all = labels.deep_view();
    let outside = outside_targets(body, successors, &labels, chunk_of);
    let ghost parts = chunks.deep_view();
    proof {
        lemma_sorted_distinct(all);
    }
    let mut r: Vec<Vec<String>> = Vec::new();
    let mut k: usize = 0;
    while k < chunks.len()
        invariant
            k <= chunks@.len(),
            model == body.deep_view(),
            all == labels.deep_view(),
            parts == chunks.deep_view(),
            labels_sorted(all),
            all.no_duplicates(),
            closed_body(model),
            is_partition(model, parts),
            chunks_located(model, parts, chunk_of.map()),
            forall|a: Text| #[trigger] model.basic_blocks.dom().contains(a) <==> all.contains(a),
            forall|t: Text| #[trigger] outside.map().dom().contains(t) <==> entered_from_outside(
                model,
                chunk_of.map(),
                t,
            ),
            r@.len() == k,
            forall|j: int| 0 <= j < k ==> is_entry_list(
                model,
                parts[j],
                (#[trigger] r@[j]).deep_view(),
            ),
        decreases chunks@.len() - k,
    {
        let mut list: Vec<String> = Vec::new();
        let ghost mut source: Seq<int> = Seq::empty();
        for i in 0..labels.len()
            invariant
                k < parts.len(),
                model == body.deep_view(),
                all == labels.deep_view(),
                closed_body(model),
                is_partition(model, parts),
                chunks_located(model, parts, chunk_of.map()),
                forall|a: Text| #[trigger] model.basic_blocks.dom().contains(a)
                    <==> all.contains(a),
                forall|t: Text| #[trigger] outside.map().dom().contains(t)
                    <==> entered_from_outside(model, chunk_of.map(), t),
                source.len() == list@.len(),
                forall|j: int| 0 <= j < source.len() ==> 0 <= #[trigger] source[j] < i && is_entry(
                    model,
                    parts[k as int],
                    all[source[j]],
                ) && list@[j]@ == all[source[j]],
                forall|a: int, b: int| 0 <= a < b < source.len() ==> source[a] < source[b],
                forall|w: int| 0 <= w < i && is_entry(
                    model,
                    parts[k as int],
                    #[trigger] all[w],
                ) ==> source.contains(w),
        {
            let ghost label = all[i as int];
            assert(label == labels@[i as int]@);
            assert(all.contains(label));
            assert(model.basic_blocks.dom().contains(label));
            proof {
                lemma_entry(model, parts, chunk_of.map(), k as int, label);
            }
            let ghost source0 = source;
            if *chunk_of.get(labels[i].as_str()).unwrap() == k && (same(
                labels[i].as_str(),
                body.entry.as_str(),
            )
                || outside.contains_key(labels[i].as_str())) {
                list.push(labels[i].clone());
                proof {
                    source = source.push(i as int);
                    assert(source[source0.len() as int] == i);
                }
            }
            assert forall|w: int| 0 <= w < i + 1 && is_entry(
                model,
                parts[k as int],
                #[trigger] all[w],
            ) implies source.contains(w) by {
                if w < i {
                    let j = choose|j: int| 0 <= j < source0.len() && source0[j] == w;
                    assert(source[j] == w);
                }
            }
        }
        proof {
            let lv = list.deep_view();
            assert forall|j: int| 0 <= j < lv.len() implies #[trigger] lv[j] == all[source[j]] by {}
            assert forall|a: int, b: int| 0 <= a < b < lv.len() implies crate::text::text_less(
                #[trigger] lv[a],
                #[trigger] lv[b],
            ) by {
                assert(source[a] < source[b]);
                assert(crate::text::text_less(all[source[a]], all[source[b]]));
            }
            assert forall|a: Text| #[trigger] lv.contains(a) <==> is_entry(
                model,
                parts[k as int],
                a,
            ) by {
                if lv.contains(a) {
                    let j = choose|j: int| 0 <= j < lv.len() && lv[j] == a;
                    assert(is_entry(model, parts[k as int], all[source[j]]));
                }
                if is_entry(model, parts[k as int], a) {
                    assert(parts[k as int].contains(a));
                    assert(model.basic_blocks.dom().contains(a));
                    assert(all.contains(a));
                    let w = choose|w: int| 0 <= w < all.len() && all[w] == a;
                    assert(source.contains(w));
                    let j = choose|j: int| 0 <= j < source.len() && source[j] == w;
                    assert(lv[j] == a);
                }
            }
        }
        r.push(list);
        k = k + 1;
    }
    assert forall|k: int| 0 <= k < chunks@.len() implies is_entry_list(
        model,
        parts[k],
        #[trigger] r.deep_view()[k],
    ) by {
        assert(is_entry_list(model, parts[k], r@[k].deep_view()));
    }
    r
}

/// The parameters of each chunk.
fn find_parameters(entries: &Vec<Vec<String>>, live: &LiveVariables) -> (r: Vec<Vec<Variable>>)
    requires
        forall|k: int, e: int|
            0 <= k < entries@.len() && 0 <= e < entries.deep_view()[k].len()
                ==> live.deep_view().dom().contains(
                #[trigger] entries.deep_view()[k][e],
            ),
    ensures
        r@.len() == entries@.len(),
        forall|k: int| 1 <= k < entries@.len() ==> is_union(
            live.deep_view(),
            entries.deep_view()[k],
            #[trigger] r.deep_view()[k],
        ),
        entries@.len() > 0 ==> r.deep_view()[0].len() == 0,
{
    let mut r: Vec<Vec<Variable>> = Vec::new();
    for k in 0..entries.len()
        invariant
            forall|k: int, e: int|
                0 <= k < entries@.len() && 0 <= e < entries.deep_view()[k].len()
                    ==> live.deep_view().dom().contains(#[trigger] entries.deep_view()[k][e]),
            r@.len() == k,
            forall|j: int| 1 <= j < k ==> is_union(
                live.deep_view(),
                entries.deep_view()[j],
                (#[trigger] r@[j]).deep_view(),
            ),
            k > 0 ==> r@[0].deep_view().len() == 0,
    {
        if k == 0 {
            let none: Vec<Variable> = Vec::new();
            r.push(none);
        } else {
            assert(entries.deep_view()[k as int] == entries@[k as int].deep_view());
            r.push(union_of(&entries[k], live));
        }
    }
    assert forall|k: int| 1 <= k < entries@.len() implies is_union(
        live.deep_view(),
        entries.deep_view()[k],
        #[trigger] r.deep_view()[k],
    ) by {
        assert(is_union(live.deep_view(), entries.deep_view()[k], r@[k].deep_view()));
    }
    if entries.len() > 0 {
        assert(r.deep_view()[0] == r@[0].deep_view());
    }
    r
}

/// Whether the slots of a chunk's parameters exceed the limit.
fn too_many_slots(entries: &Vec<String>, params: &Vec<Variable>) -> (r: bool)
    ensures
        r == ((if entries@.len() > 1 {
            1nat
        } else {
            0nat
        }) + slots_of(params.deep_view()) > MAX_PARAMETER_SLOTS),
{
    let ghost all = params.deep_view();
    let mut sum: usize = if entries.len() > 1 { 1 } else { 0 };
    let ghost selector: nat = if entries@.len() > 1 { 1 } else { 0 };
    assert(all.take(0) =~= Seq::<VariableModel>::empty());
    for i in 0..params.len()
        invariant
            all == params.deep_view(),
            selector == (if entries@.len() > 1 { 1nat } else { 0nat }),
            sum == selector + slots_of(all.take(i as int)),
            sum <= MAX_PARAMETER_SLOTS,
    {
        assert(all.take(i + 1).drop_last() =~= all.take(i as int));
        assert(all[i as int] == params@[i as int].deep_view());
        sum = sum + type_slots(&params[i].ty);
        if sum > MAX_PARAMETER_SLOTS {
            proof {
                lemma_slots_prefix(all, i + 1);
            }
            return true;
        }
    }
    assert(all.take(all.len() as int) =~= all);
    false
}

proof fn lemma_slots_prefix(list: Seq<VariableModel>, i: int)
    requires
        0 <= i <= list.len(),
    ensures
        slots_of(list.take(i)) <= slots_of(list),
    decreases list.len() - i,
{
    if i < list.len() {
        lemma_slots_prefix(list, i + 1);
        assert(list.take(i + 1).drop_last() =~= list.take(i));
    } else {
        assert(list.take(i) =~= list);
    }
}

/// Divides a function along groups of its components.
fn plan_outline(
    function: &Function,
    successors: &NameMap<Vec<String>>,
    components: &Vec<Vec<String>>,
    gs: &Vec<Vec<usize>>,
) -> (plan: OutlinePlan)
    requires
        function.signature.params@.len() < usize::MAX,
        closed_body(function.deep_view().body),
        successors.deep_view() == successor_model(function.deep_view().body),
        in_topological_order(function.deep_view().body, components.deep_view()),
        component_schedule(function.deep_view().body, components.deep_view()),
        lists(gs@) == groups(
            component_costs(function.deep_view().body.basic_blocks, components.deep_view()),
        ),
    ensures
        exists|types: Map<Text, Seq<TypeModel>>| #[trigger] divides(
            plan.deep_view(),
            function.deep_view(),
            types,
            components.deep_view(),
        ),
{
    let ghost model = function.deep_view();
    let ghost c = components.deep_view();
    let count: usize = components.len();
    let ghost costs = component_costs(model.body.basic_blocks, c);
    proof {
        assert(c.len() == count);
        assert forall|g: int, k: int| 0 <= g < gs@.len() && 0 <= k < gs@[g]@.len() implies (
            #[trigger] gs@[g]@[k]
        ) < components@.len() by {
            assert(lists(gs@)[g] == gs@[g]@);
            crate::chunks::groups_name_components(costs, g, k);
        }
        chunks_are_a_partition(model.body, c);
    }
    let chunks = collect_chunks(components, gs);
    let chunk_of = locate_chunks(Ghost(model.body), &chunks);
    let types = collect_variable_types(function);
    let live = live_variables(&function.body, successors, &types);
    let entries = find_entries(&function.body, successors, &chunks, &chunk_of);
    proof {
        assert forall|k: int, e: int|
            0 <= k < entries@.len() && 0 <= e < entries.deep_view()[k].len()
                implies live.deep_view().dom().contains(
                #[trigger] entries.deep_view()[k][e],
            ) by {
            let a = entries.deep_view()[k][e];
            assert(entries.deep_view()[k].contains(a));
            assert(is_entry_list(model.body, chunks.deep_view()[k], entries.deep_view()[k]));
            assert(is_entry(model.body, chunks.deep_view()[k], a));
            assert(chunks.deep_view()[k].contains(a));
        }
    }
    let params = find_parameters(&entries, &live);
    let mut crowded: bool = false;
    let mut k: usize = 1;
    while k < entries.len()
        invariant
            1 <= k,
            entries@.len() == params@.len(),
            crowded <==> exists|j: int| 1 <= j < k && j < entries@.len() && ((
                if (#[trigger] entries@[j])@.len() > 1 { 1nat } else { 0nat }
            ) + slots_of(params.deep_view()[j]) > MAX_PARAMETER_SLOTS),
        decreases entries@.len() - k,
    {
        assert(params.deep_view()[k as int] == params@[k as int].deep_view());
        if too_many_slots(&entries[k], &params[k]) {
            crowded = true;
        }
        k = k + 1;
    }
    let carrier = if crowded {
        Some(build_carrier_plan(&entries, &live))
    } else {
        None
    };
    let plan = OutlinePlan { chunks, chunk_of, entries, live, params, carrier };
    proof {
        let p = plan.deep_view();
        assert forall|j: int| 0 <= j < p.chunks.len() implies #[trigger] are_parameters(p, j) by {}
        assert forall|j: int| 1 <= j < p.chunks.len() implies #[trigger] parameter_slots(p, j) == (
            if plan.entries@[j]@.len() > 1 { 1nat } else { 0nat }
        ) + slots_of(plan.params.deep_view()[j]) by {
            assert(p.entries[j] == plan.entries@[j].deep_view());
        }
        if crowded {
            let j = choose|j: int| 1 <= j < k && j < plan.entries@.len() && ((
                if (#[trigger] plan.entries@[j])@.len() > 1 { 1nat } else { 0nat }
            ) + slots_of(plan.params.deep_view()[j]) > MAX_PARAMETER_SLOTS);
            assert(parameter_slots(p, j) > MAX_PARAMETER_SLOTS);
            assert(needs_carrier(p));
        }
        if needs_carrier(p) {
            let j = choose|j: int| 1 <= j < p.chunks.len()
                && #[trigger] parameter_slots(p, j) > MAX_PARAMETER_SLOTS;
            assert(plan.entries@[j]@.len() == plan.entries@[j]@.len());
            assert(crowded);
        }
        assert(divides(p, model, types.deep_view(), c));
    }
    plan
}

/// The name of the method of a chunk.
pub open spec fn chunk_name(function: FunctionModel, identity: Text, k: int) -> Text {
    if k == 0 {
        function.name
    } else {
        METHOD_PREFIX@ + function.name + shortened(identity, 12) + "$"@ + decimal_text(k as nat)
    }
}

/// The parameters of the method of a later chunk: the selector, where it has several entries, and
/// the carrier arrays or the variables that are live on entry to it.
pub open spec fn chunk_parameters(plan: OutlinePlanModel, k: int) -> Seq<(Text, TypeModel)> {
    (if plan.entries[k].len() > 1 {
        seq![(PARAMETER_PREFIX@ + SELECTOR@, Type::I32)]
    } else {
        Seq::<(Text, TypeModel)>::empty()
    }) + (match plan.carrier {
        Some(arrays) => arrays.map_values(|a: CarrierArrayModel| (
            PARAMETER_PREFIX@ + a.name,
            carrier_type(a),
        )),
        None => plan.params[k].map_values(|v: VariableModel| (PARAMETER_PREFIX@ + v.0, v.1)),
    })
}

/// The signature of the method of a chunk.
pub open spec fn chunk_signature(
    function: FunctionModel,
    plan: OutlinePlanModel,
    k: int,
) -> SignatureModel {
    if k == 0 {
        function.signature
    } else {
        SignatureModel { params: chunk_parameters(plan, k), ret: function.signature.ret,
            is_static: true }
    }
}

/// The argument for a parameter: the variable where it is live on entry to the target, and a
/// default
/// value elsewhere.
pub open spec fn argument(plan: OutlinePlanModel, target: Text, v: VariableModel) -> OperandModel {
    if plan.live[target].contains(v) {
        Operand::Variable { name: v.0, ty: v.1 }
    } else {
        Operand::Constant(default_of(v.1))
    }
}

/// The arguments of the call that continues at `target` in chunk `k`.
pub open spec fn call_operands(plan: OutlinePlanModel, k: int, target: Text) -> Seq<OperandModel> {
    (if plan.entries[k].len() > 1 {
        seq![int_operand(plan.entries[k].index_of(target))]
    } else {
        Seq::<OperandModel>::empty()
    }) + (match plan.carrier {
        Some(arrays) => arrays.map_values(
            |a: CarrierArrayModel| -> OperandModel { Operand::Variable { name: a.name,
                ty: carrier_type(a) } },
        ),
        None => plan.params[k].map_values(|v: VariableModel| argument(plan, target, v)),
    })
}

fn chunk_parameters_of(plan: &OutlinePlan, k: usize) -> (r: Vec<(String, Type)>)
    requires
        k < plan.entries@.len(),
        k < plan.params@.len(),
    ensures
        r.deep_view() == chunk_parameters(plan.deep_view(), k as int),
{
    let ghost model = plan.deep_view();
    let mut r: Vec<(String, Type)> = Vec::new();
    assert(model.entries[k as int] == plan.entries@[k as int].deep_view());
    assert(model.params[k as int] == plan.params@[k as int].deep_view());
    if plan.entries[k].len() > 1 {
        r.push((cat2(PARAMETER_PREFIX, SELECTOR), Type::I32));
    }
    let ghost r0 = r.deep_view();
    assert(
        r0 =~= (if plan.entries@[k as int]@.len() > 1 { seq![(
            PARAMETER_PREFIX@ + SELECTOR@,
            Type::I32,
        )] } else { Seq::<(Text, TypeModel)>::empty() })
    );
    match &plan.carrier {
        Some(arrays) => {
            let ghost all = arrays.deep_view();
            for i in 0..arrays.len()
                invariant
                    all == arrays.deep_view(),
                    r@.len() == r0.len() + i,
                    forall|j: int| 0 <= j < r0.len() ==> (#[trigger] r@[j]).deep_view() == r0[j],
                    forall|j: int| r0.len() <= j < r@.len() ==> (#[trigger] r@[j]).deep_view() == (
                        PARAMETER_PREFIX@ + all[j - r0.len()].name,
                        carrier_type(all[j - r0.len()]),
                    ),
            {
                assert(all[i as int] == arrays@[i as int].deep_view());
                r.push(
                    (
                        cat2(PARAMETER_PREFIX, arrays[i].name.as_str()),
                        carrier_array_type(&arrays[i]),
                    ),
                );
            }
            assert(r.deep_view() =~= chunk_parameters(model, k as int));
        },
        None => {
            let ghost all = plan.params@[k as int].deep_view();
            let list = &plan.params[k];
            for i in 0..list.len()
                invariant
                    all == list.deep_view(),
                    r@.len() == r0.len() + i,
                    forall|j: int| 0 <= j < r0.len() ==> (#[trigger] r@[j]).deep_view() == r0[j],
                    forall|j: int| r0.len() <= j < r@.len() ==> (#[trigger] r@[j]).deep_view() == (
                        PARAMETER_PREFIX@ + all[j - r0.len()].0,
                        all[j - r0.len()].1,
                    ),
            {
                assert(all[i as int] == list@[i as int].deep_view());
                r.push((cat2(PARAMETER_PREFIX, list[i].name.as_str()), list[i].ty.dup()));
            }
            assert(r.deep_view() =~= chunk_parameters(model, k as int));
        },
    }
    r
}

fn chunk_signature_of(function: &Function, plan: &OutlinePlan, k: usize) -> (r: Signature)
    requires
        k < plan.entries@.len(),
        k < plan.params@.len(),
    ensures
        r.deep_view() == chunk_signature(function.deep_view(), plan.deep_view(), k as int),
{
    if k == 0 {
        function.signature.dup()
    } else {
        Signature { params: chunk_parameters_of(plan, k), ret: function.signature.ret.dup(),
            is_static: true }
    }
}

fn chunk_name_of(function: &Function, identity: &str, k: usize) -> (r: String)
    ensures
        r@ == chunk_name(function.deep_view(), identity@, k as int),
{
    if k == 0 {
        function.name.clone()
    } else {
        cat5(
            METHOD_PREFIX,
            function.name.as_str(),
            short_hash(identity, 12).as_str(),
            "$",
            decimal(k as u128).as_str(),
        )
    }
}

/// The position of a label.
fn label_position(list: &Vec<String>, label: &str) -> (r: usize)
    requires
        list.deep_view().contains(label@),
        list.deep_view().no_duplicates(),
    ensures
        r == list.deep_view().index_of(label@),
{
    let ghost all = list.deep_view();
    let mut i: usize = 0;
    while i < list.len()
        invariant
            i <= list@.len(),
            all == list.deep_view(),
            all.no_duplicates(),
            forall|k: int| 0 <= k < i ==> (#[trigger] all[k]) != label@,
        decreases list@.len() - i,
    {
        assert(all[i as int] == list@[i as int]@);
        if same(list[i].as_str(), label) {
            assert(all.contains(label@));
            return i;
        }
        i = i + 1;
    }
    assert(false);
    0
}

/// The arguments of the call that continues at `target` in chunk `k`.
fn call_arguments(plan: &OutlinePlan, k: usize, target: &str) -> (r: Vec<Operand>)
    requires
        k < plan.entries@.len(),
        k < plan.params@.len(),
        plan.deep_view().entries[k as int].contains(target@),
        plan.deep_view().entries[k as int].no_duplicates(),
        plan.deep_view().live.dom().contains(target@),
    ensures
        r.deep_view() == call_operands(plan.deep_view(), k as int, target@),
{
    let ghost model = plan.deep_view();
    let mut r: Vec<Operand> = Vec::new();
    assert(model.entries[k as int] == plan.entries@[k as int].deep_view());
    assert(model.params[k as int] == plan.params@[k as int].deep_view());
    if plan.entries[k].len() > 1 {
        let position: usize = label_position(&plan.entries[k], target);
        r.push(Operand::Constant(Constant::I32(position as i32)));
    }
    let ghost r0 = r.deep_view();
    assert(
        r0 =~= (if model.entries[k as int].len() > 1 { seq![int_operand(
            model.entries[k as int].index_of(target@),
        )] } else { Seq::<OperandModel>::empty() })
    );
    match &plan.carrier {
        Some(arrays) => {
            let ghost all = arrays.deep_view();
            for i in 0..arrays.len()
                invariant
                    all == arrays.deep_view(),
                    r@.len() == r0.len() + i,
                    forall|j: int| 0 <= j < r0.len() ==> (#[trigger] r@[j]).deep_view() == r0[j],
                    forall|j: int| r0.len() <= j < r@.len()
                        ==> (#[trigger] r@[j]).deep_view()
                        == (Operand::<Text>::Variable { name: all[j - r0.len()].name,
                        ty: carrier_type(all[j - r0.len()]) }),
            {
                assert(all[i as int] == arrays@[i as int].deep_view());
                r.push(Operand::Variable { name: arrays[i].name.clone(),
                    ty: carrier_array_type(&arrays[i]) });
            }
            assert(r.deep_view() =~= call_operands(model, k as int, target@));
        },
        None => {
            assert(plan.live.map().dom().contains(target@));
            let live: &Vec<Variable> = plan.live.get(target).unwrap();
            assert(live.deep_view() == model.live[target@]);
            let list = &plan.params[k];
            let ghost all = list.deep_view();
            for i in 0..list.len()
                invariant
                    all == list.deep_view(),
                    model == plan.deep_view(),
                    live.deep_view() == model.live[target@],
                    r@.len() == r0.len() + i,
                    forall|j: int| 0 <= j < r0.len() ==> (#[trigger] r@[j]).deep_view() == r0[j],
                    forall|j: int| r0.len() <= j < r@.len()
                        ==> (#[trigger] r@[j]).deep_view() == argument(model, target@,
                        all[j - r0.len()]),
            {
                assert(all[i as int] == list@[i as int].deep_view());
                if variable_position(live, &list[i]).is_some() {
                    r.push(Operand::Variable { name: list[i].name.clone(), ty: list[i].ty.dup() });
                } else {
                    r.push(Operand::Constant(default_constant(&list[i].ty)));
                }
            }
            assert(r.deep_view() =~= call_operands(model, k as int, target@));
        },
    }
    r
}

/// A label, or what stands in its place.
pub open spec fn redirected(replacements: Map<Text, Text>, label: Text) -> Text {
    if replacements.dom().contains(label) {
        replacements[label]
    } else {
        label
    }
}

/// An instruction with the labels that it transfers to replaced.
pub open spec fn rewritten(instruction: InstructionModel, replacements: Map<Text, Text>)
    -> InstructionModel {
    match instruction {
        InstructionModel::UnwindStart { target } => InstructionModel::UnwindStart {
            target: redirected(replacements, target),
        },
        InstructionModel::Jump { target } => InstructionModel::Jump { target: redirected(
            replacements,
            target,
        ) },
        InstructionModel::Branch { condition, true_block,
            false_block } => InstructionModel::Branch {
            condition,
            true_block: redirected(replacements, true_block),
            false_block: redirected(replacements, false_block),
        },
        InstructionModel::Switch { discr, targets, otherwise } => InstructionModel::Switch {
            discr,
            targets: targets.map_values(|t: (ConstantModel, Text)| (
                t.0,
                redirected(replacements, t.1),
            )),
            otherwise: redirected(replacements, otherwise),
        },
        other => other,
    }
}

/// A block with the labels that it transfers to replaced.
pub open spec fn rewritten_block(block: BasicBlockModel, replacements: Map<Text, Text>)
    -> BasicBlockModel {
    BasicBlockModel {
        label: block.label,
        instructions: block.instructions.map_values(|i: InstructionModel| rewritten(i,
            replacements)),
    }
}

fn redirect(replacements: &NameMap<String>, label: &String) -> (r: String)
    ensures
        r@ == redirected(replacements.deep_view(), label@),
{
    match replacements.get(label.as_str()) {
        Some(other) => other.clone(),
        None => label.clone(),
    }
}

fn rewrite_instruction(
    instruction: &Instruction,
    replacements: &NameMap<String>,
) -> (r: Instruction)
    ensures
        r.deep_view() == rewritten(instruction.deep_view(), replacements.deep_view()),
{
    match instruction {
        Instruction::UnwindStart { target } => Instruction::UnwindStart { target: redirect(
            replacements,
            target,
        ) },
        Instruction::Jump { target } => Instruction::Jump { target: redirect(
            replacements,
            target,
        ) },
        Instruction::Branch { condition, true_block, false_block } => Instruction::Branch {
            condition: condition.dup(),
            true_block: redirect(replacements, true_block),
            false_block: redirect(replacements, false_block),
        },
        Instruction::Switch { discr, targets, otherwise } => {
            let mut changed: Vec<(Constant, String)> = Vec::new();
            for i in 0..targets.len()
                invariant
                    changed@.len() == i,
                    forall|k: int| 0 <= k < i ==> (#[trigger] changed@[k]).deep_view() == (
                        targets@[k].deep_view().0,
                        redirected(replacements.deep_view(), targets@[k].deep_view().1),
                    ),
            {
                changed.push((targets[i].0.dup(), redirect(replacements, &targets[i].1)));
            }
            assert(changed.deep_view() =~= targets.deep_view().map_values(|t: (ConstantModel,
                Text)| (t.0, redirected(replacements.deep_view(), t.1))));
            Instruction::Switch { discr: discr.dup(), targets: changed, otherwise: redirect(
                replacements,
                otherwise,
            ) }
        },
        _ => instruction.dup(),
    }
}

/// Replaces the labels that a block transfers to.
pub fn rewrite_targets(block: &mut BasicBlock, replacements: &NameMap<String>)
    ensures
        final(block).deep_view() == rewritten_block(
            old(block).deep_view(),
            replacements.deep_view(),
        ),
{
    let mut changed: Vec<Instruction> = Vec::new();
    for i in 0..block.instructions.len()
        invariant
            *block == *old(block),
            changed@.len() == i,
            forall|k: int| 0 <= k < i ==> (#[trigger] changed@[k]).deep_view() == rewritten(
                block.instructions@[k].deep_view(),
                replacements.deep_view(),
            ),
    {
        changed.push(rewrite_instruction(&block.instructions[i], replacements));
    }
    assert(changed.deep_view()
        =~= block.instructions.deep_view().map_values(|i: InstructionModel| rewritten(i,
        replacements.deep_view())));
    block.instructions = changed;
}

/// Whether a list holds exactly the labels of other chunks that the blocks of a chunk transfer to,
/// in
/// ascending order.
pub open spec fn is_external_list(body: CodeBlockModel, chunk: Seq<Text>, list: Seq<Text>) -> bool {
    labels_sorted(list) && forall|t: Text| #[trigger] list.contains(t)
        <==> is_external(body, chunk, t)
}

/// Whether a block of a chunk transfers to a label outside it.
pub open spec fn is_external(body: CodeBlockModel, chunk: Seq<Text>, t: Text) -> bool {
    !chunk.contains(t) && exists|a: Text| chunk.contains(a) && #[trigger] label_edge(body, a, t)
}

/// The labels of other chunks that the blocks of a chunk transfer to.
fn external_targets(
    body: &CodeBlock,
    successors: &NameMap<Vec<String>>,
    plan: &OutlinePlan,
    k: usize,
) -> (r: Vec<String>)
    requires
        closed_body(body.deep_view()),
        successors.deep_view() == successor_model(body.deep_view()),
        is_partition(body.deep_view(), plan.deep_view().chunks),
        chunks_located(body.deep_view(), plan.deep_view().chunks, plan.deep_view().chunk_of),
        k < plan.chunks@.len(),
    ensures
        is_external_list(body.deep_view(), plan.deep_view().chunks[k as int], r.deep_view()),
{
    let ghost model = body.deep_view();
    let ghost chunks = plan.deep_view().chunks;
    let ghost chunk = chunks[k as int];
    let list = &plan.chunks[k];
    assert(chunk == list.deep_view());
    let mut r: Vec<String> = Vec::new();
    let mut i: usize = 0;
    while i < list.len()
        invariant
            i <= list@.len(),
            k < chunks.len(),
            model == body.deep_view(),
            chunks == plan.deep_view().chunks,
            chunk == chunks[k as int],
            chunk == list.deep_view(),
            closed_body(model),
            successors.deep_view() == successor_model(model),
            is_partition(model, chunks),
            chunks_located(model, chunks, plan.chunk_of.map()),
            labels_sorted(r.deep_view()),
            forall|t: Text| #[trigger] r.deep_view().contains(t) <==> !chunk.contains(t)
                && exists|j: int| 0 <= j < i && label_edge(model, #[trigger] chunk[j], t),
        decreases list@.len() - i,
    {
        let ghost label = chunk[i as int];
        assert(label == list@[i as int]@);
        assert(chunks[k as int].contains(label));
        assert(model.basic_blocks.dom().contains(label));
        let ghost out = successors_of(model.basic_blocks[label].instructions);
        assert(successors.deep_view().dom().contains(label));
        assert(successors.map().dom().contains(label));
        let targets: &Vec<String> = successors.get(list[i].as_str()).unwrap();
        assert(targets.deep_view() == successors.deep_view()[label]);
        assert(targets.deep_view() == out);
        let ghost r0 = r.deep_view();
        for t in 0..targets.len()
            invariant
                k < chunks.len(),
                chunk == chunks[k as int],
                closed_body(model),
                is_partition(model, chunks),
                chunks_located(model, chunks, plan.chunk_of.map()),
                model.basic_blocks.dom().contains(label),
                out == successors_of(model.basic_blocks[label].instructions),
                targets.deep_view() == out,
                labels_sorted(r.deep_view()),
                forall|x: Text| #[trigger] r.deep_view().contains(x) <==> r0.contains(x)
                    || (!chunk.contains(x) && exists|j: int| 0 <= j < t && #[trigger] out[j] == x),
        {
            let ghost target = out[t as int];
            assert(target == targets@[t as int]@);
            assert(out.contains(target));
            assert(model.basic_blocks.dom().contains(target));
            proof {
                lemma_located(model, chunks, plan.chunk_of.map(), k as int, target);
            }
            let ghost r1 = r.deep_view();
            if *plan.chunk_of.get(targets[t].as_str()).unwrap() != k && !holds_label(
                &r,
                targets[t].as_str(),
            ) {
                insert_label(&mut r, targets[t].clone());
            }
            assert forall|x: Text| #[trigger] r.deep_view().contains(x) <==> r0.contains(x)
                || (!chunk.contains(x) && exists|j: int| 0 <= j < t + 1 && #[trigger] out[j] == x)
                by {
                assert(r.deep_view().contains(x) <==> r1.contains(x) || (
                    !chunk.contains(target) && x == target
                ));
            }
        }
        assert forall|t: Text| #[trigger] r.deep_view().contains(t) <==> !chunk.contains(t)
            && exists|j: int| 0 <= j < i + 1 && label_edge(model, #[trigger] chunk[j], t) by {
            assert(out.contains(t) <==> exists|j: int| 0 <= j < out.len()
                && #[trigger] out[j] == t);
            assert(label_edge(model, label, t) <==> out.contains(t));
            assert(r0.contains(t) <==> !chunk.contains(t) && exists|j: int| 0 <= j < i
                && label_edge(model, #[trigger] chunk[j], t));
            if out.contains(t) {
                assert(label_edge(model, chunk[i as int], t));
            }
        }
        i = i + 1;
    }
    assert forall|t: Text| #[trigger] r.deep_view().contains(t) <==> is_external(model, chunk, t)
        by {
        if r.deep_view().contains(t) {
            let j = choose|j: int| 0 <= j < i && label_edge(model, #[trigger] chunk[j], t);
            assert(chunk.contains(chunk[j]) && label_edge(model, chunk[j], t));
        }
        if is_external(model, chunk, t) {
            let a = choose|a: Text| chunk.contains(a) && #[trigger] label_edge(model, a, t);
            let j = choose|j: int| 0 <= j < chunk.len() && chunk[j] == a;
            assert(label_edge(model, chunk[j], t));
        }
    }
    r
}

fn holds_label(list: &Vec<String>, label: &str) -> (r: bool)
    ensures
        r == list.deep_view().contains(label@),
{
    let mut i: usize = 0;
    while i < list.len()
        invariant
            i <= list@.len(),
            forall|k: int| 0 <= k < i ==> (#[trigger] list@[k])@ != label@,
        decreases list@.len() - i,
    {
        if same(list[i].as_str(), label) {
            assert(list.deep_view()[i as int] == label@);
            return true;
        }
        i = i + 1;
    }
    proof {
        if list.deep_view().contains(label@) {
            let k = choose|k: int| 0 <= k < list.deep_view().len() && list.deep_view()[k] == label@;
            assert(list@[k]@ == label@);
        }
    }
    false
}

/// What the names of outlined methods and blocks are made of: the class that holds the methods, the
/// digest of the function's identity and the digest of each label.
pub struct Naming {
    pub owner: String,
    pub identity: String,
    pub digests: NameMap<String>,
}

/// The model of a [`Naming`].
pub struct NamingModel {
    pub owner: Text,
    pub identity: Text,
    pub digests: Map<Text, Text>,
}

impl DeepView for Naming {
    type V = NamingModel;

    open spec fn deep_view(&self) -> NamingModel {
        NamingModel { owner: self.owner@, identity: self.identity@,
            digests: self.digests.deep_view() }
    }
}

/// The label of the block that calls the method of a target's chunk.
pub open spec fn tail_label(plan: OutlinePlanModel, naming: NamingModel, target: Text) -> Text {
    "$outlined$tail$"@ + decimal_text(
        plan.chunk_of[target] as nat,
    ) + "$"@ + shortened(naming.digests[target], 10)
}

/// The block that continues at a target in another chunk: it stores what is live into the carrier,
/// where there is one, calls the method of the chunk and returns its result.
pub open spec fn tail_block(
    function: FunctionModel,
    plan: OutlinePlanModel,
    naming: NamingModel,
    target: Text,
) -> BasicBlockModel {
    let k = plan.chunk_of[target] as int;
    let ret = function.signature.ret;
    let dest = if has_value(ret) {
        Some(RESULT@)
    } else {
        None
    };
    BasicBlockModel {
        label: tail_label(plan, naming, target),
        instructions: (match plan.carrier {
            Some(arrays) => stores(arrays, plan.live[target]),
            None => Seq::<InstructionModel>::empty(),
        }) + seq![
            InstructionModel::InvokeStatic {
                dest,
                class_name: naming.owner,
                method_name: chunk_name(function, naming.identity, k),
                method_ty: chunk_signature(function, plan, k),
                args: call_operands(plan, k, target),
            },
            InstructionModel::Return {
                operand: if has_value(ret) {
                    Some(Operand::Variable { name: RESULT@, ty: ret })
                } else {
                    None
                },
            },
        ],
    }
}

/// Whether a plan can be carried out for a chunk: the parts agree in number, and every target of
/// another chunk is an entry there.
pub open spec fn can_continue(plan: OutlinePlanModel, naming: NamingModel, target: Text) -> bool {
    &&& plan.chunk_of.dom().contains(target)
    &&& plan.chunk_of[target] < plan.entries.len()
    &&& plan.chunk_of[target] < plan.params.len()
    &&& plan.entries[plan.chunk_of[target] as int].contains(target)
    &&& plan.entries[plan.chunk_of[target] as int].no_duplicates()
    &&& plan.live.dom().contains(target)
    &&& naming.digests.dom().contains(target)
}

fn tail_label_of(plan: &OutlinePlan, naming: &Naming, target: &str) -> (r: String)
    requires
        can_continue(plan.deep_view(), naming.deep_view(), target@),
    ensures
        r@ == tail_label(plan.deep_view(), naming.deep_view(), target@),
{
    let k: usize = *plan.chunk_of.get(target).unwrap();
    assert(naming.digests.map().dom().contains(target@));
    let digest: &String = naming.digests.get(target).unwrap();
    cat4(
        "$outlined$tail$",
        decimal(k as u128).as_str(),
        "$",
        short_hash(digest.as_str(), 10).as_str(),
    )
}

fn tail_block_of(
    function: &Function,
    plan: &OutlinePlan,
    naming: &Naming,
    target: &str,
) -> (r: BasicBlock)
    requires
        can_continue(plan.deep_view(), naming.deep_view(), target@),
    ensures
        r.deep_view() == tail_block(
            function.deep_view(),
            plan.deep_view(),
            naming.deep_view(),
            target@,
        ),
{
    let ghost model = plan.deep_view();
    let k: usize = *plan.chunk_of.get(target).unwrap();
    assert(plan.live.map().dom().contains(target@));
    let live: &Vec<Variable> = plan.live.get(target).unwrap();
    assert(live.deep_view() == model.live[target@]);
    let mut instructions: Vec<Instruction> = match &plan.carrier {
        Some(arrays) => carrier_stores(arrays, live),
        None => Vec::new(),
    };
    let ghost first = instructions.deep_view();
    assert(first =~= (match model.carrier {
        Some(arrays) => stores(arrays, model.live[target@]),
        None => Seq::<InstructionModel>::empty(),
    }));
    let returns: bool = function.signature.ret.has_jvm_value();
    let dest: Option<String> = if returns {
        Some(RESULT.to_string())
    } else {
        None
    };
    let ghost dest_model = dest.deep_view();
    let call = Instruction::InvokeStatic {
        dest,
        class_name: naming.owner.clone(),
        method_name: chunk_name_of(function, naming.identity.as_str(), k),
        method_ty: chunk_signature_of(function, plan, k),
        args: call_arguments(plan, k, target),
    };
    let operand: Option<Operand> = if returns {
        Some(Operand::Variable { name: RESULT.to_string(), ty: function.signature.ret.dup() })
    } else {
        None
    };
    let ghost call_model = call.deep_view();
    let ghost operand_model = operand.deep_view();
    instructions.push(call);
    instructions.push(Instruction::Return { operand });
    let label = tail_label_of(plan, naming, target);
    let r = BasicBlock { label, instructions };
    proof {
        let wanted = tail_block(function.deep_view(), model, naming.deep_view(), target@);
        assert(instructions.deep_view() =~= first + seq![call_model,
            InstructionModel::Return { operand: operand_model }]);
        assert(r.deep_view().instructions =~= wanted.instructions);
    }
    r
}

/// The blocks of a chunk as the function has them.
pub open spec fn own_blocks(
    function: FunctionModel,
    plan: OutlinePlanModel,
    k: int,
) -> Map<Text, BasicBlockModel> {
    Map::new(|a: Text| plan.chunks[k].contains(a), |a: Text| function.body.basic_blocks[a])
}

/// Blocks with the tail block of each target added in turn.
pub open spec fn with_tails(
    blocks: Map<Text, BasicBlockModel>,
    function: FunctionModel,
    plan: OutlinePlanModel,
    naming: NamingModel,
    targets: Seq<Text>,
) -> Map<Text, BasicBlockModel>
    decreases targets.len(),
{
    if targets.len() == 0 {
        blocks
    } else {
        with_tails(blocks, function, plan, naming, targets.drop_last()).insert(
            tail_label(plan, naming, targets.last()),
            tail_block(function, plan, naming, targets.last()),
        )
    }
}

/// The tail label of each target.
pub open spec fn tail_labels(
    plan: OutlinePlanModel,
    naming: NamingModel,
    targets: Seq<Text>,
) -> Map<Text, Text> {
    Map::new(|t: Text| targets.contains(t), |t: Text| tail_label(plan, naming, t))
}

/// The label of the block that selects the entry of a chunk.
pub open spec fn dispatch_label(k: int) -> Text {
    "$outlined$dispatch$"@ + decimal_text(k as nat)
}

/// The label of the block that rejects an unknown selector.
pub open spec fn invalid_label(k: int) -> Text {
    "$outlined$invalid$"@ + decimal_text(k as nat)
}

/// Whether a chunk selects among several entries.
pub open spec fn dispatches(plan: OutlinePlanModel, k: int) -> bool {
    k > 0 && plan.entries[k].len() > 1
}

/// The block that selects the entry of a chunk.
pub open spec fn dispatch_block(plan: OutlinePlanModel, k: int) -> BasicBlockModel {
    BasicBlockModel {
        label: dispatch_label(k),
        instructions: seq![
            InstructionModel::Switch {
                discr: Operand::Variable { name: SELECTOR@, ty: Type::I32 },
                targets: Seq::new(
                    plan.entries[k].len(),
                    |i: int| (Constant::<Text>::I32(i as i32), plan.entries[k][i]),
                ),
                otherwise: invalid_label(k),
            },
        ],
    }
}

/// The block that rejects an unknown selector.
pub open spec fn invalid_block(k: int) -> BasicBlockModel {
    BasicBlockModel {
        label: invalid_label(k),
        instructions: seq![
            InstructionModel::ThrowNewWithMessage {
                exception_class: "java/lang/IllegalStateException"@,
                message: "invalid outlined Rust control-flow entry"@,
            },
        ],
    }
}

/// The label at which the method of a chunk starts.
pub open spec fn start_label(plan: OutlinePlanModel, k: int) -> Text {
    if dispatches(plan, k) {
        dispatch_label(k)
    } else {
        plan.entries[k][0]
    }
}

/// What the method of a chunk does first: the first chunk allocates the carrier arrays, and a later
/// one restores from them what is live on entry to it.
pub open spec fn prologue(plan: OutlinePlanModel, k: int) -> Seq<InstructionModel> {
    match plan.carrier {
        Some(arrays) => if k == 0 {
            arrays.map_values(|a: CarrierArrayModel| allocation(a))
        } else {
            loads(arrays, plan.params[k])
        },
        None => Seq::empty(),
    }
}

/// A block with instructions in front.
pub open spec fn preceded(block: BasicBlockModel, first: Seq<InstructionModel>) -> BasicBlockModel {
    BasicBlockModel { label: block.label, instructions: first + block.instructions }
}

/// The blocks of the method of a chunk whose blocks transfer to `targets` in other chunks.
pub open spec fn chunk_blocks(
    function: FunctionModel,
    plan: OutlinePlanModel,
    naming: NamingModel,
    k: int,
    targets: Seq<Text>,
) -> Map<Text, BasicBlockModel> {
    let tails = with_tails(own_blocks(function, plan, k), function, plan, naming, targets);
    let replacements = tail_labels(plan, naming, targets);
    let redirected = tails.map_values(|b: BasicBlockModel| rewritten_block(b, replacements));
    let selected = if dispatches(plan, k) {
        redirected.insert(
            dispatch_label(k),
            dispatch_block(plan, k),
        ).insert(invalid_label(k), invalid_block(k))
    } else {
        redirected
    };
    if plan.carrier is Some {
        selected.insert(
            start_label(plan, k),
            preceded(selected[start_label(plan, k)], prologue(plan, k)),
        )
    } else {
        selected
    }
}

/// The method of a chunk.
pub open spec fn chunk_function(
    function: FunctionModel,
    plan: OutlinePlanModel,
    naming: NamingModel,
    k: int,
    targets: Seq<Text>,
) -> FunctionModel {
    FunctionModel {
        name: chunk_name(function, naming.identity, k),
        owner_class: function.owner_class,
        signature: chunk_signature(function, plan, k),
        debug_variables: if k == 0 {
            function.debug_variables
        } else {
            Seq::empty()
        },
        body: CodeBlockModel {
            entry: start_label(plan, k),
            basic_blocks: chunk_blocks(function, plan, naming, k, targets),
        },
    }
}

/// Whether a function model is the method of a chunk.
pub open spec fn is_chunk_function(
    function: FunctionModel,
    plan: OutlinePlanModel,
    naming: NamingModel,
    k: int,
    r: FunctionModel,
) -> bool {
    exists|targets: Seq<Text>| #[trigger]
        is_external_list(
            function.body,
            plan.chunks[k],
            targets,
        ) && r == chunk_function(function, plan, naming, k, targets)
}

fn dispatch_block_of(plan: &OutlinePlan, k: usize) -> (r: BasicBlock)
    requires
        k < plan.entries@.len(),
    ensures
        r.deep_view() == dispatch_block(plan.deep_view(), k as int),
{
    let ghost model = plan.deep_view();
    let entries = &plan.entries[k];
    assert(model.entries[k as int] == entries.deep_view());
    let mut targets: Vec<(Constant, String)> = Vec::new();
    for i in 0..entries.len()
        invariant
            targets@.len() == i,
            forall|j: int| 0 <= j < i ==> (
                #[trigger] targets@[j]
            ).deep_view() == (Constant::<Text>::I32(j as i32), entries@[j]@),
    {
        targets.push((Constant::I32(i as i32), entries[i].clone()));
    }
    let ghost tm = targets.deep_view();
    assert(tm =~= Seq::new(model.entries[k as int].len(), |i: int| (
        Constant::<Text>::I32(i as i32),
        model.entries[k as int][i],
    )));
    let label = cat2("$outlined$dispatch$", decimal(k as u128).as_str());
    let otherwise = cat2("$outlined$invalid$", decimal(k as u128).as_str());
    let mut instructions: Vec<Instruction> = Vec::new();
    instructions.push(
        Instruction::Switch {
            discr: Operand::Variable { name: SELECTOR.to_string(), ty: Type::I32 },
            targets,
            otherwise,
        },
    );
    let r = BasicBlock { label, instructions };
    assert(r.deep_view().instructions =~= dispatch_block(model, k as int).instructions);
    r
}

fn invalid_block_of(k: usize) -> (r: BasicBlock)
    ensures
        r.deep_view() == invalid_block(k as int),
{
    let label = cat2("$outlined$invalid$", decimal(k as u128).as_str());
    let mut instructions: Vec<Instruction> = Vec::new();
    instructions.push(
        Instruction::ThrowNewWithMessage {
            exception_class: "java/lang/IllegalStateException".to_string(),
            message: "invalid outlined Rust control-flow entry".to_string(),
        },
    );
    let r = BasicBlock { label, instructions };
    assert(r.deep_view().instructions =~= invalid_block(k as int).instructions);
    r
}

/// Whether a plan has everything that the method of a chunk needs.
pub open spec fn can_build(
    function: FunctionModel,
    plan: OutlinePlanModel,
    naming: NamingModel,
    k: int,
) -> bool {
    &&& 0 <= k < plan.chunks.len()
    &&& plan.entries.len() == plan.chunks.len()
    &&& plan.params.len() == plan.chunks.len()
    &&& plan.entries[k].len() > 0
    &&& plan.chunks[k].contains(plan.entries[k][0])
    &&& is_partition(function.body, plan.chunks)
    &&& chunks_located(function.body, plan.chunks, plan.chunk_of)
    &&& forall|t: Text| #[trigger] is_external(
        function.body,
        plan.chunks[k],
        t,
    ) ==> can_continue(plan, naming, t)
    &&& plan.carrier matches Some(arrays) ==> slots_distinct(arrays) && all_have_slots(
        arrays,
        plan.params[k],
    )
}

/// Copies the blocks of a chunk.
fn copy_blocks(function: &Function, plan: &OutlinePlan, k: usize) -> (r: NameMap<BasicBlock>)
    requires
        k < plan.chunks@.len(),
        is_partition(function.deep_view().body, plan.deep_view().chunks),
    ensures
        r.deep_view() == own_blocks(function.deep_view(), plan.deep_view(), k as int),
{
    let ghost model = function.deep_view();
    let ghost chunks = plan.deep_view().chunks;
    let ghost chunk = chunks[k as int];
    let list = &plan.chunks[k];
    assert(chunk == list.deep_view());
    let blocks = &function.body.basic_blocks;
    let mut r: NameMap<BasicBlock> = NameMap::new();
    for i in 0..list.len()
        invariant
            k < chunks.len(),
            chunk == chunks[k as int],
            chunk == list.deep_view(),
            *blocks == function.body.basic_blocks,
            model == function.deep_view(),
            is_partition(model.body, chunks),
            forall|a: Text| #[trigger] r.map().dom().contains(a) <==> exists|j: int| 0 <= j < i
                && #[trigger] chunk[j] == a,
            forall|a: Text| #[trigger] r.map().dom().contains(a)
                ==> r.map()[a].deep_view() == model.body.basic_blocks[a],
    {
        let ghost label = chunk[i as int];
        assert(label == list@[i as int]@);
        assert(chunks[k as int].contains(label));
        assert(model.body.basic_blocks.dom().contains(label));
        assert(blocks.map().dom().contains(label));
        let block: &BasicBlock = blocks.get(list[i].as_str()).unwrap();
        assert(block.deep_view() == model.body.basic_blocks[label]);
        let ghost r0 = r.map();
        r.insert(list[i].clone(), block.dup());
        assert forall|a: Text| #[trigger] r.map().dom().contains(a)
            <==> exists|j: int| 0 <= j < i + 1 && #[trigger] chunk[j] == a by {
            assert(r.map().dom().contains(a) <==> r0.dom().contains(a) || a == label);
        }
    }
    assert forall|a: Text| #[trigger] r.map().dom().contains(a) <==> chunk.contains(a) by {
        if chunk.contains(a) {
            let j = choose|j: int| 0 <= j < chunk.len() && chunk[j] == a;
            assert(chunk[j] == a);
        }
    }
    assert(r.deep_view() =~= own_blocks(model, plan.deep_view(), k as int));
    r
}

/// The method of a chunk.
fn build_chunk(
    function: &Function,
    successors: &NameMap<Vec<String>>,
    plan: &OutlinePlan,
    naming: &Naming,
    k: usize,
) -> (r: Function)
    requires
        closed_body(function.deep_view().body),
        successors.deep_view() == successor_model(function.deep_view().body),
        can_build(function.deep_view(), plan.deep_view(), naming.deep_view(), k as int),
    ensures
        is_chunk_function(
            function.deep_view(),
            plan.deep_view(),
            naming.deep_view(),
            k as int,
            r.deep_view(),
        ),
{
    let ghost model = function.deep_view();
    let ghost pm = plan.deep_view();
    let ghost nm = naming.deep_view();
    let targets = external_targets(&function.body, successors, plan, k);
    let ghost ts = targets.deep_view();
    let mut blocks = copy_blocks(function, plan, k);
    let ghost own = own_blocks(model, pm, k as int);
    let mut tails: NameMap<String> = NameMap::new();
    assert(ts.take(0) =~= Seq::<Text>::empty());
    for i in 0..targets.len()
        invariant
            ts == targets.deep_view(),
            model == function.deep_view(),
            pm == plan.deep_view(),
            nm == naming.deep_view(),
            is_external_list(model.body, pm.chunks[k as int], ts),
            forall|t: Text| #[trigger] is_external(
                model.body,
                pm.chunks[k as int],
                t,
            ) ==> can_continue(pm, nm, t),
            blocks.deep_view() == with_tails(own, model, pm, nm, ts.take(i as int)),
            forall|t: Text| #[trigger] tails.map().dom().contains(t) <==> exists|j: int| 0 <= j < i
                && #[trigger] ts[j] == t,
            forall|t: Text| #[trigger] tails.map().dom().contains(t)
                ==> tails.map()[t]@ == tail_label(pm, nm, t),
    {
        let ghost target = ts[i as int];
        assert(target == targets@[i as int]@);
        assert(ts.contains(target));
        assert(can_continue(pm, nm, target));
        assert(ts.take(i + 1).drop_last() =~= ts.take(i as int));
        let label = tail_label_of(plan, naming, targets[i].as_str());
        let block = tail_block_of(function, plan, naming, targets[i].as_str());
        let ghost b0 = blocks.deep_view();
        let ghost block_model = block.deep_view();
        blocks.insert(label.clone(), block);
        assert(blocks.deep_view() =~= b0.insert(label@, block_model));
        let ghost t0 = tails.map();
        tails.insert(targets[i].clone(), label);
        assert forall|t: Text| #[trigger] tails.map().dom().contains(t)
            <==> exists|j: int| 0 <= j < i + 1 && #[trigger] ts[j] == t by {
            assert(tails.map().dom().contains(t) <==> t0.dom().contains(t) || t == target);
        }
    }
    assert(ts.take(ts.len() as int) =~= ts);
    let ghost replacements = tail_labels(pm, nm, ts);
    assert(tails.deep_view() =~= replacements) by {
        assert forall|t: Text| #[trigger] tails.map().dom().contains(t) <==> ts.contains(t) by {
            if ts.contains(t) {
                let j = choose|j: int| 0 <= j < ts.len() && ts[j] == t;
                assert(ts[j] == t);
            }
        }
    }
    let ghost before = blocks.deep_view();
    let mut done: NameMap<BasicBlock> = redirect_all(&blocks, &tails);
    let ghost rewritten_all = before.map_values(|b: BasicBlockModel| rewritten_block(b,
        replacements));
    assert(done.deep_view() == rewritten_all);
    assert(pm.entries[k as int] == plan.entries@[k as int].deep_view());
    assert(pm.params[k as int] == plan.params@[k as int].deep_view());
    let entry = if k > 0 && plan.entries[k].len() > 1 {
        let label = cat2("$outlined$dispatch$", decimal(k as u128).as_str());
        let dispatch = dispatch_block_of(plan, k);
        let ghost d0 = done.deep_view();
        let ghost dm = dispatch.deep_view();
        done.insert(label.clone(), dispatch);
        assert(done.deep_view() =~= d0.insert(dispatch_label(k as int), dm));
        let invalid = invalid_block_of(k);
        let ghost d1 = done.deep_view();
        let ghost im = invalid.deep_view();
        done.insert(cat2("$outlined$invalid$", decimal(k as u128).as_str()), invalid);
        assert(done.deep_view() =~= d1.insert(invalid_label(k as int), im));
        label
    } else {
        plan.entries[k][0].clone()
    };
    assert(entry@ == start_label(pm, k as int));
    let ghost selected = done.deep_view();
    assert(selected == (if dispatches(pm, k as int) {
        rewritten_all.insert(
            dispatch_label(k as int),
            dispatch_block(pm, k as int),
        ).insert(invalid_label(k as int), invalid_block(k as int))
    } else {
        rewritten_all
    }));
    proof {
        lemma_tails_keep(own, model, pm, nm, ts, pm.entries[k as int][0]);
        assert(selected.dom().contains(entry@));
    }
    if let Some(arrays) = &plan.carrier {
        let first = if k == 0 {
            carrier_allocations(arrays)
        } else {
            carrier_loads(arrays, &plan.params[k])
        };
        assert(first.deep_view() == prologue(pm, k as int));
        assert(done.map().dom().contains(entry@));
        let block: &BasicBlock = done.get(entry.as_str()).unwrap();
        assert(block.deep_view() == selected[entry@]);
        let changed = put_in_front(block, first);
        let ghost cm = changed.deep_view();
        done.insert(entry.clone(), changed);
        assert(done.deep_view() =~= selected.insert(entry@, cm));
    }
    let debug_variables: Vec<String> = if k == 0 {
        function.debug_variables.dup()
    } else {
        Vec::new()
    };
    assert(
        debug_variables.deep_view() =~= (
            if k == 0 { model.debug_variables } else { Seq::<Text>::empty() }
        )
    );
    let r = Function {
        name: chunk_name_of(function, naming.identity.as_str(), k),
        owner_class: function.owner_class.dup(),
        signature: chunk_signature_of(function, plan, k),
        debug_variables,
        body: CodeBlock { entry, basic_blocks: done },
    };
    assert(r.deep_view().body.basic_blocks == chunk_blocks(model, pm, nm, k as int, ts));
    assert(r.deep_view() == chunk_function(model, pm, nm, k as int, ts));
    r
}

fn put_in_front(block: &BasicBlock, first: Vec<Instruction>) -> (r: BasicBlock)
    ensures
        r.deep_view() == preceded(block.deep_view(), first.deep_view()),
{
    let ghost f = first.deep_view();
    let ghost rest = block.instructions.deep_view();
    let mut instructions = first;
    let mut more = block.instructions.dup();
    let ghost a = instructions@;
    let ghost b = more@;
    instructions.append(&mut more);
    let r = BasicBlock { label: block.label.clone(), instructions };
    proof {
        assert(r.instructions.deep_view() =~= f + rest) by {
            assert forall|i: int| 0 <= i < f.len() + rest.len()
                implies r.instructions.deep_view()[i] == (f + rest)[i] by {
                if i < f.len() {
                    assert(r.instructions@[i] == a[i]);
                } else {
                    assert(r.instructions@[i] == b[i - f.len()]);
                    assert(more.deep_view() == more.deep_view());
                    assert(b[i - f.len()].deep_view() == rest[i - f.len()]);
                }
            }
        }
    }
    r
}

/// Replaces the labels that each block transfers to.
fn redirect_all(
    blocks: &NameMap<BasicBlock>,
    replacements: &NameMap<String>,
) -> (r: NameMap<BasicBlock>)
    ensures
        r.deep_view() == blocks.deep_view().map_values(|b: BasicBlockModel| rewritten_block(
            b,
            replacements.deep_view(),
        )),
{
    blocks.check();
    let n: usize = blocks.len();
    let ghost keys = blocks.keys();
    let ghost model = blocks.deep_view().map_values(|b: BasicBlockModel| rewritten_block(
        b,
        replacements.deep_view(),
    ));
    let mut r: NameMap<BasicBlock> = NameMap::new();
    for i in 0..n
        invariant
            n == keys.len(),
            keys == blocks.keys(),
            blocks.consistent(),
            model == blocks.deep_view().map_values(|b: BasicBlockModel| rewritten_block(
                b,
                replacements.deep_view(),
            )),
            forall|a: Text| #[trigger] r.map().dom().contains(a) <==> exists|j: int| 0 <= j < i
                && #[trigger] keys[j] == a,
            forall|a: Text| #[trigger] r.map().dom().contains(a)
                ==> r.map()[a].deep_view() == model[a],
    {
        let ghost key = keys[i as int];
        assert(blocks.map().dom().contains(key));
        assert(blocks.deep_view()[key] == blocks.values()[i as int].deep_view());
        let mut block: BasicBlock = blocks.value_at(i).dup();
        rewrite_targets(&mut block, replacements);
        assert(block.deep_view() == model[key]);
        let ghost r0 = r.map();
        r.insert(blocks.key_at(i).clone(), block);
        assert forall|a: Text| #[trigger] r.map().dom().contains(a)
            <==> exists|j: int| 0 <= j < i + 1 && #[trigger] keys[j] == a by {
            assert(r.map().dom().contains(a) <==> r0.dom().contains(a) || a == key);
        }
    }
    assert forall|a: Text| #[trigger] r.map().dom().contains(a) <==> blocks.map().dom().contains(a)
        by {
        assert(blocks.map().dom().contains(a) <==> keys.contains(a));
        if keys.contains(a) {
            let j = choose|j: int| 0 <= j < keys.len() && keys[j] == a;
            assert(keys[j] == a);
        }
    }
    assert(r.deep_view() =~= model);
    r
}

/// Adding tail blocks takes no block away.
proof fn lemma_tails_keep(
    blocks: Map<Text, BasicBlockModel>,
    function: FunctionModel,
    plan: OutlinePlanModel,
    naming: NamingModel,
    targets: Seq<Text>,
    label: Text,
)
    requires
        blocks.dom().contains(label),
    ensures
        with_tails(blocks, function, plan, naming, targets).dom().contains(label),
    decreases targets.len(),
{
    if targets.len() > 0 {
        lemma_tails_keep(blocks, function, plan, naming, targets.drop_last(), label);
    }
}

/// A path from the entry into a chunk passes an entry of the chunk.
proof fn lemma_path_enters(
    body: CodeBlockModel,
    chunk: Seq<Text>,
    p: Seq<Text>,
    i: int,
) -> (a: Text)
    requires
        label_path(body, p),
        p[0] == body.entry,
        0 <= i < p.len(),
        chunk.contains(p[i]),
    ensures
        is_entry(body, chunk, a),
    decreases i,
{
    if i == 0 {
        p[0]
    } else if chunk.contains(p[i - 1]) {
        lemma_path_enters(body, chunk, p, i - 1)
    } else {
        assert(label_step(body, p, i - 1));
        assert(label_edge(body, p[i - 1], p[i]) && !chunk.contains(p[i - 1]));
        p[i]
    }
}

/// A plan that divides a function whose blocks can all be reached can be carried out.
pub proof fn lemma_can_build(
    plan: OutlinePlanModel,
    naming: NamingModel,
    function: FunctionModel,
    types: Map<Text, Seq<TypeModel>>,
    c: Seq<Seq<Text>>,
    k: int,
)
    requires
        divides(plan, function, types, c),
        closed_body(function.body),
        all_reachable(function.body),
        forall|a: Text| #[trigger] function.body.basic_blocks.dom().contains(a)
            ==> naming.digests.dom().contains(a),
        0 <= k < plan.chunks.len(),
    ensures
        can_build(function, plan, naming, k),
{
    let body = function.body;
    let chunk = plan.chunks[k];
    assert(is_entry_list(body, chunk, plan.entries[k]));
    assert(chunk.len() > 0);
    let x = chunk[0];
    assert(chunk.contains(x));
    assert(body.basic_blocks.dom().contains(x));
    assert(label_reach(body, body.entry, x));
    let p = choose|p: Seq<Text>| #[trigger] label_leads(body, p, body.entry, x);
    let a = lemma_path_enters(body, chunk, p, p.len() - 1);
    assert(plan.entries[k].contains(a));
    let first = plan.entries[k][0];
    assert(plan.entries[k].contains(first));
    assert(is_entry(body, chunk, first));
    assert forall|t: Text| #[trigger] is_external(body, chunk, t)
        implies can_continue(plan, naming, t) by {
        let a = choose|a: Text| chunk.contains(a) && #[trigger] label_edge(body, a, t);
        assert(successors_of(body.basic_blocks[a].instructions).contains(t));
        assert(body.basic_blocks.dom().contains(t));
        let h = plan.chunk_of[t] as int;
        assert(plan.chunks[h].contains(t));
        assert(is_entry_list(body, plan.chunks[h], plan.entries[h]));
        assert(!plan.chunks[h].contains(a)) by {
            if plan.chunks[h].contains(a) {
                assert(h == k);
            }
        }
        assert(label_edge(body, a, t) && !plan.chunks[h].contains(a));
        assert(is_entry(body, plan.chunks[h], t));
        assert(plan.entries[h].contains(t));
        lemma_sorted_distinct(plan.entries[h]);
    }
    if plan.carrier is Some {
        let arrays = plan.carrier->0;
        lemma_slots_distinct(plan.live, plan.entries, arrays);
        assert(are_parameters(plan, k));
        assert forall|i: int| 0 <= i < plan.params[k].len() implies has_slot(
            arrays,
            #[trigger] plan.params[k][i],
        ) by {
            let v = plan.params[k][i];
            assert(plan.params[k].contains(v));
            assert(live_at_one(plan.live, plan.entries[k], v));
            assert(live_later(plan.live, plan.entries, v));
            carrier_has_a_slot_for_each_live_variable(plan.live, plan.entries, arrays, v);
            let (a, j) = choose|a: int, j: int|
                #![trigger arrays[a].variables[j]]
                0 <= a < arrays.len() && 0 <= j < arrays[a].variables.len()
                    && arrays[a].variables[j] == v
                    && arrays[a].element_type == crate::carrier::category_of(v.1).1;
            assert(arrays[a].variables.contains(v));
        }
    }
}

/// Whether a function stays whole without being looked at further: it is small, or it is a
/// constructor.
pub open spec fn stays_whole(function: FunctionModel) -> bool {
    total_cost(function.body.basic_blocks) <= MAX_CHUNK_COST || function.name == "<init>"@
}

/// Whether functions are what becomes of a large one whose components are `c`: the function itself
/// where all its components fit into one chunk, and one method for each chunk elsewhere.
pub open spec fn is_outline(
    function: FunctionModel,
    naming: NamingModel,
    c: Seq<Seq<Text>>,
    r: Seq<FunctionModel>,
) -> bool {
    &&& in_topological_order(function.body, c)
    &&& component_schedule(function.body, c)
    &&& if groups(component_costs(function.body.basic_blocks, c)).len() == 1 {
        r == seq![function]
    } else {
        exists|plan: OutlinePlanModel, types: Map<Text, Seq<TypeModel>>| #[trigger]
            divides(plan, function, types, c) && r.len() == plan.chunks.len() && forall|k: int|
                0 <= k < r.len() ==> is_chunk_function(function, plan, naming, k, #[trigger] r[k])
    }
}

/// Whether functions are what becomes of a function: the function itself where it stays whole, and
/// its outline elsewhere.
pub open spec fn outlines(
    function: FunctionModel,
    naming: NamingModel,
    r: Seq<FunctionModel>,
) -> bool {
    if stays_whole(function) {
        r == seq![function]
    } else {
        exists|c: Seq<Seq<Text>>| #[trigger] is_outline(function, naming, c, r)
    }
}

/// Divides a function that is too large for one method into several.
pub fn outline_function(function: Function, naming: &Naming) -> (r: Result<Vec<Function>, Error>)
    requires
        can_outline(function.deep_view(), naming.deep_view()),
    ensures
        r is Ok <==> stays_whole(function.deep_view()) || all_reachable(function.deep_view().body),
        r matches Err(e) ==> e.deep_view() == verification_failure(
            "control flow"@,
            UNREACHABLE_MESSAGE@,
        ),
        r matches Ok(fs) ==> outlines(function.deep_view(), naming.deep_view(), fs.deep_view()),
{
    let ghost model = function.deep_view();
    let cost: usize = body_cost(&function.body);
    if cost <= MAX_CHUNK_COST || same(function.name.as_str(), "<init>") {
        return Ok(single(function));
    }
    let successors = successor_map(&function.body);
    let components = match topological_components(&function.body, &successors) {
        Ok(c) => c,
        Err(e) => {
            return Err(e);
        },
    };
    let ghost c = components.deep_view();
    let costs = costs_of(&function.body, &components);
    let gs = pack_components(&costs);
    assert(lists(gs@) == groups(component_costs(model.body.basic_blocks, c)));
    assert(lists(gs@).len() == gs@.len());
    if gs.len() == 1 {
        let r = single(function);
        assert(is_outline(model, naming.deep_view(), c, r.deep_view()));
        assert(outlines(model, naming.deep_view(), r.deep_view()));
        return Ok(r);
    }
    let plan = plan_outline(&function, &successors, &components, &gs);
    let ghost pm = plan.deep_view();
    let ghost types = choose|types: Map<Text, Seq<TypeModel>>| #[trigger] divides(pm, model, types,
        c);
    let mut r: Vec<Function> = Vec::new();
    let mut k: usize = 0;
    while k < plan.chunks.len()
        invariant
            k <= plan.chunks@.len(),
            model == function.deep_view(),
            pm == plan.deep_view(),
            closed_body(model.body),
            all_reachable(model.body),
            successors.deep_view() == successor_model(model.body),
            divides(pm, model, types, c),
            forall|a: Text| #[trigger] model.body.basic_blocks.dom().contains(a)
                ==> naming.deep_view().digests.dom().contains(a),
            r@.len() == k,
            forall|j: int| 0 <= j < k ==> is_chunk_function(
                model,
                pm,
                naming.deep_view(),
                j,
                (#[trigger] r@[j]).deep_view(),
            ),
        decreases plan.chunks@.len() - k,
    {
        proof {
            lemma_can_build(pm, naming.deep_view(), model, types, c, k as int);
        }
        r.push(build_chunk(&function, &successors, &plan, naming, k));
        k = k + 1;
    }
    proof {
        let rm = r.deep_view();
        assert forall|j: int| 0 <= j < rm.len() implies is_chunk_function(
            model,
            pm,
            naming.deep_view(),
            j,
            #[trigger] rm[j],
        ) by {
            assert(is_chunk_function(model, pm, naming.deep_view(), j, r@[j].deep_view()));
        }
        assert(divides(pm, model, types, c));
        assert(is_outline(model, naming.deep_view(), c, rm));
    }
    Ok(r)
}

fn single(function: Function) -> (r: Vec<Function>)
    ensures
        r.deep_view() == seq![function.deep_view()],
{
    let mut r: Vec<Function> = Vec::new();
    r.push(function);
    assert(r.deep_view() =~= seq![function.deep_view()]);
    r
}

/// A method only calls methods of later chunks, so control never comes back to a chunk that it
/// left.
pub proof fn calls_lead_to_later_chunks(
    plan: OutlinePlanModel,
    function: FunctionModel,
    types: Map<Text, Seq<TypeModel>>,
    c: Seq<Seq<Text>>,
    k: int,
    t: Text,
)
    requires
        divides(plan, function, types, c),
        closed_body(function.body),
        0 <= k < plan.chunks.len(),
        is_external(function.body, plan.chunks[k], t),
    ensures
        k < plan.chunk_of[t] < plan.chunks.len(),
        plan.entries[plan.chunk_of[t] as int].contains(t),
{
    let body = function.body;
    let a = choose|a: Text| plan.chunks[k].contains(a) && #[trigger] label_edge(body, a, t);
    assert(successors_of(body.basic_blocks[a].instructions).contains(t));
    assert(body.basic_blocks.dom().contains(t));
    let h = plan.chunk_of[t] as int;
    assert(plan.chunks[h].contains(t));
    assert(k <= h);
    assert(is_entry_list(body, plan.chunks[h], plan.entries[h]));
    assert(!plan.chunks[h].contains(a)) by {
        if plan.chunks[h].contains(a) {
            assert(h == k);
        }
    }
    assert(label_edge(body, a, t) && !plan.chunks[h].contains(a));
    assert(is_entry(body, plan.chunks[h], t));
}

/// The call that continues in a chunk passes one argument for each parameter of the chunk's method,
/// and each has the type of its parameter (a default value of type `Void` is the unit value).
pub proof fn calls_match_signatures(plan: OutlinePlanModel, k: int, target: Text, i: int)
    requires
        0 <= i < chunk_parameters(plan, k).len(),
    ensures
        call_operands(plan, k, target).len() == chunk_parameters(plan, k).len(),
        crate::oomir::operand_type(
            call_operands(plan, k, target)[i],
        ) == chunk_parameters(plan, k)[i].1
            || chunk_parameters(plan, k)[i].1 is Void,
{
    let first: int = if plan.entries[k].len() > 1 {
        1
    } else {
        0
    };
    if i >= first && plan.carrier is None {
        crate::carrier::default_has_the_type(plan.params[k][i - first].1);
    }
}

/// Lists of variables take the slots of both together.
proof fn lemma_slots_add(a: Seq<VariableModel>, b: Seq<VariableModel>)
    ensures
        slots_of(a + b) == slots_of(a) + slots_of(b),
    decreases b.len(),
{
    if b.len() == 0 {
        assert(a + b =~= a);
    } else {
        assert((a + b).drop_last() =~= a + b.drop_last());
        lemma_slots_add(a, b.drop_last());
    }
}

/// Other names leave the slots of variables as they are.
proof fn lemma_renamed_slots(list: Seq<VariableModel>, renamed: Seq<VariableModel>)
    requires
        list.len() == renamed.len(),
        forall|i: int| 0 <= i < list.len() ==> (#[trigger] renamed[i]).1 == list[i].1,
    ensures
        slots_of(renamed) == slots_of(list),
    decreases list.len(),
{
    if list.len() > 0 {
        lemma_renamed_slots(list.drop_last(), renamed.drop_last());
    }
}

/// Objects take a slot each.
proof fn lemma_object_slots(list: Seq<VariableModel>)
    requires
        forall|i: int| 0 <= i < list.len() ==> slots((#[trigger] list[i]).1) == 1,
    ensures
        slots_of(list) == list.len(),
    decreases list.len(),
{
    if list.len() > 0 {
        lemma_object_slots(list.drop_last());
    }
}

/// A carrier has at most one array of each kind.
proof fn lemma_few_arrays(per_kind: Seq<Seq<VariableModel>>, n: nat)
    ensures
        arrays_of(per_kind, n).len() <= n,
    decreases n,
{
    if n > 0 {
        lemma_few_arrays(per_kind, (n - 1) as nat);
    }
}

/// The parameters of each method but the first take at most 250 slots.
pub proof fn later_methods_have_few_parameter_slots(
    function: FunctionModel,
    naming: NamingModel,
    r: Seq<FunctionModel>,
    k: int,
)
    requires
        outlines(function, naming, r),
        1 <= k < r.len(),
    ensures
        slots_of(r[k].signature.params) <= 250,
{
    let c = choose|c: Seq<Seq<Text>>| #[trigger] is_outline(function, naming, c, r);
    let (plan, types) = choose|plan: OutlinePlanModel, types: Map<Text, Seq<TypeModel>>| #[trigger]
        divides(plan, function, types, c) && r.len() == plan.chunks.len() && forall|k: int|
            0 <= k < r.len() ==> is_chunk_function(function, plan, naming, k, #[trigger] r[k]);
    assert(is_chunk_function(function, plan, naming, k, r[k]));
    let all = chunk_parameters(plan, k);
    assert(r[k].signature.params == all);
    let first = if plan.entries[k].len() > 1 {
        seq![(PARAMETER_PREFIX@ + SELECTOR@, Type::<Text>::I32)]
    } else {
        Seq::<(Text, TypeModel)>::empty()
    };
    let rest = match plan.carrier {
        Some(arrays) => arrays.map_values(
            |a: CarrierArrayModel| (PARAMETER_PREFIX@ + a.name, carrier_type(a)),
        ),
        None => plan.params[k].map_values(|v: VariableModel| (PARAMETER_PREFIX@ + v.0, v.1)),
    };
    assert(all == first + rest);
    lemma_slots_add(first, rest);
    lemma_object_slots(first);
    if plan.carrier is Some {
        let arrays = plan.carrier->0;
        let per_kind = choose|per_kind: Seq<Seq<VariableModel>>| #[trigger]
            listed_by_kind(plan.live, plan.entries, per_kind) && arrays == arrays_of(
                per_kind,
                CATEGORIES as nat,
            );
        lemma_few_arrays(per_kind, CATEGORIES as nat);
        lemma_object_slots(rest);
    } else {
        lemma_renamed_slots(plan.params[k], rest);
        assert(!(parameter_slots(plan, k) > MAX_PARAMETER_SLOTS));
    }
}

/// The first chunk is entered where the function starts and nowhere else.
pub proof fn first_chunk_starts_at_the_entry(
    plan: OutlinePlanModel,
    function: FunctionModel,
    types: Map<Text, Seq<TypeModel>>,
    c: Seq<Seq<Text>>,
)
    requires
        divides(plan, function, types, c),
        closed_body(function.body),
        all_reachable(function.body),
        function.body.basic_blocks.dom().contains(function.body.entry),
    ensures
        plan.chunks.len() > 0,
        plan.entries[0] == seq![function.body.entry],
        plan.chunk_of[function.body.entry] == 0,
{
    let body = function.body;
    let h = plan.chunk_of[body.entry] as int;
    assert(plan.chunks[h].contains(body.entry));
    assert(plan.chunks[0].len() > 0);
    let x = plan.chunks[0][0];
    assert(plan.chunks[0].contains(x));
    assert(label_reach(body, body.entry, x));
    let p = choose|p: Seq<Text>| #[trigger] label_leads(body, p, body.entry, x);
    lemma_path_goes_forward(plan, function, types, c, p, p.len() - 1, h, 0);
    let list = plan.entries[0];
    assert(is_entry_list(body, plan.chunks[0], list));
    assert(is_entry(body, plan.chunks[0], body.entry));
    assert(list.contains(body.entry));
    assert forall|a: Text| list.contains(a) implies a == body.entry by {
        assert(is_entry(body, plan.chunks[0], a));
        if a != body.entry {
            let b = choose|b: Text| #[trigger] label_edge(body, b, a)
                && !plan.chunks[0].contains(b);
            assert(body.basic_blocks.dom().contains(b));
            let g = plan.chunk_of[b] as int;
            assert(plan.chunks[g].contains(b));
            assert(g <= 0);
        }
    }
    lemma_sorted_distinct(list);
    if list.len() > 1 {
        assert(list.contains(list[0]) && list.contains(list[1]));
        assert(list[0] == list[1]);
    }
    assert(list.contains(list[0]));
    assert(list =~= seq![body.entry]);
}

proof fn lemma_path_goes_forward(
    plan: OutlinePlanModel,
    function: FunctionModel,
    types: Map<Text, Seq<TypeModel>>,
    c: Seq<Seq<Text>>,
    p: Seq<Text>,
    i: int,
    g: int,
    h: int,
)
    requires
        divides(plan, function, types, c),
        closed_body(function.body),
        label_path(function.body, p),
        0 <= i < p.len(),
        0 <= g < plan.chunks.len(),
        0 <= h < plan.chunks.len(),
        plan.chunks[g].contains(p[0]),
        plan.chunks[h].contains(p[i]),
    ensures
        g <= h,
    decreases i,
{
    let body = function.body;
    if i == 0 {
        assert(plan.chunks[g].contains(p[0]) && plan.chunks[h].contains(p[0]));
    } else {
        assert(label_step(body, p, i - 1));
        let a = p[i - 1];
        assert(body.basic_blocks.dom().contains(a));
        let m = plan.chunk_of[a] as int;
        assert(plan.chunks[m].contains(a));
        lemma_path_goes_forward(plan, function, types, c, p, i - 1, g, m);
        assert(plan.chunks[m].contains(a) && plan.chunks[h].contains(p[i]));
        assert(label_edge(body, a, p[i]));
        assert(m <= h);
    }
}

/// Whether a label is one that outlining makes for a chunk.
pub open spec fn is_generated(
    plan: OutlinePlanModel,
    naming: NamingModel,
    k: int,
    targets: Seq<Text>,
    label: Text,
) -> bool {
    ||| exists|i: int| 0 <= i < targets.len() && label == #[trigger] tail_label(
        plan,
        naming,
        targets[i],
    )
    ||| dispatches(plan, k) && (label == dispatch_label(k) || label == invalid_label(k))
}

proof fn lemma_tails_other(
    blocks: Map<Text, BasicBlockModel>,
    function: FunctionModel,
    plan: OutlinePlanModel,
    naming: NamingModel,
    targets: Seq<Text>,
    label: Text,
)
    requires
        forall|i: int| 0 <= i < targets.len() ==> label != #[trigger] tail_label(
            plan,
            naming,
            targets[i],
        ),
    ensures
        with_tails(
            blocks,
            function,
            plan,
            naming,
            targets,
        ).dom().contains(label) == blocks.dom().contains(label),
        blocks.dom().contains(label) ==> with_tails(
            blocks,
            function,
            plan,
            naming,
            targets,
        )[label] == blocks[label],
    decreases targets.len(),
{
    if targets.len() > 0 {
        let front = targets.drop_last();
        assert forall|i: int| 0 <= i < front.len() implies label != #[trigger] tail_label(
            plan,
            naming,
            front[i],
        ) by {
            assert(front[i] == targets[i]);
        }
        lemma_tails_other(blocks, function, plan, naming, front, label);
        assert(label != tail_label(plan, naming, targets[targets.len() - 1]));
    }
}

/// The method of a chunk holds each block of the chunk: the same instructions, with transfers to
/// other chunks going to the tail blocks, behind the prologue where the method starts there.
pub proof fn methods_hold_their_blocks(
    function: FunctionModel,
    plan: OutlinePlanModel,
    naming: NamingModel,
    k: int,
    targets: Seq<Text>,
    label: Text,
)
    requires
        0 <= k < plan.chunks.len(),
        plan.chunks[k].contains(label),
        !is_generated(plan, naming, k, targets, label),
    ensures
        ({
            let blocks = chunk_function(function, plan, naming, k, targets).body.basic_blocks;
            let same_block = rewritten_block(
                function.body.basic_blocks[label],
                tail_labels(plan, naming, targets),
            );
            blocks.dom().contains(label) && (if plan.carrier is Some
                && label == start_label(plan, k) {
                blocks[label] == preceded(same_block, prologue(plan, k))
            } else {
                blocks[label] == same_block
            })
        }),
{
    lemma_tails_other(own_blocks(function, plan, k), function, plan, naming, targets, label);
}

/// What becomes of a whole module: each function's outline, in the order of the functions.
pub open spec fn module_outline(
    functions: Seq<FunctionModel>,
    namings: Seq<NamingModel>,
    r: Seq<Seq<FunctionModel>>,
) -> bool {
    r.len() == functions.len() && forall|i: int|
        0 <= i < functions.len() ==> outlines(functions[i], namings[i], #[trigger] r[i])
}

/// The class that holds the methods of a function: its own, or that of the module.
pub open spec fn owner_of(module_name: Text, function: FunctionModel) -> Text {
    match function.owner_class {
        Some(class) => class,
        None => module_name,
    }
}

/// The class that holds the methods of a function: its own, or that of the module.
pub fn outline_owner(module_name: &str, function: &Function) -> (r: String)
    ensures
        r@ == owner_of(module_name@, function.deep_view()),
{
    match &function.owner_class {
        Some(class) => class.clone(),
        None => module_name.to_string(),
    }
}

/// Whether a function can be outlined with a naming: if it does not stay whole, its blocks only
/// transfer to blocks that there are, and each of them has a digest.
pub open spec fn can_outline(function: FunctionModel, naming: NamingModel) -> bool {
    &&& total_cost(function.body.basic_blocks) <= usize::MAX
    &&& !stays_whole(function) ==> {
        &&& closed_body(function.body)
        &&& function.body.basic_blocks.dom().contains(function.body.entry)
        &&& function.signature.params.len() < usize::MAX
        &&& forall|a: Text| #[trigger] function.body.basic_blocks.dom().contains(a)
            ==> naming.digests.dom().contains(a)
    }
}

/// Divides each function of a module that is too large; the first that cannot be divided is an
/// error.
pub fn outline_large_functions(
    functions: Vec<Function>,
    namings: &Vec<Naming>,
) -> (r: Result<Vec<Vec<Function>>, Error>)
    requires
        functions@.len() == namings@.len(),
        forall|i: int| 0 <= i < functions@.len() ==> can_outline(
            (#[trigger] functions@[i]).deep_view(),
            namings@[i].deep_view(),
        ),
    ensures
        r is Ok <==> forall|i: int| 0 <= i < functions@.len() ==> stays_whole(
            #[trigger] functions.deep_view()[i],
        )
            || all_reachable(functions.deep_view()[i].body),
        r matches Err(e) ==> e.deep_view() == verification_failure(
            "control flow"@,
            UNREACHABLE_MESSAGE@,
        ),
        r matches Ok(fs) ==> module_outline(
            functions.deep_view(),
            namings.deep_view(),
            fs.deep_view(),
        ),
{
    let ghost all = functions@;
    let ghost models = functions.deep_view();
    let ghost names = namings.deep_view();
    let total: usize = namings.len();
    let mut r: Vec<Vec<Function>> = Vec::new();
    let mut i: usize = 0;
    for function in it: functions
        invariant
            it.seq() == all,
            total == namings@.len(),
            models == functions.deep_view(),
            all == functions@,
            i == it.index(),
            all.len() == namings@.len(),
            models.len() == all.len(),
            names == namings.deep_view(),
            forall|j: int| 0 <= j < all.len() ==> #[trigger] models[j] == all[j].deep_view(),
            forall|j: int| 0 <= j < all.len() ==> can_outline(
                (#[trigger] all[j]).deep_view(),
                namings@[j].deep_view(),
            ),
            r@.len() == i,
            forall|j: int| 0 <= j < i ==> outlines(
                models[j],
                names[j],
                (#[trigger] r@[j]).deep_view(),
            ),
            forall|j: int| 0 <= j < i ==> stays_whole(
                #[trigger] models[j],
            ) || all_reachable(models[j].body),
    {
        assert(function == all[i as int]);
        assert(can_outline(all[i as int].deep_view(), namings@[i as int].deep_view()));
        let naming = &namings[i];
        assert(names[i as int] == naming.deep_view());
        assert(models[i as int] == function.deep_view());
        match outline_function(function, naming) {
            Ok(fs) => {
                r.push(fs);
            },
            Err(e) => {
                assert(!(stays_whole(models[i as int]) || all_reachable(models[i as int].body)));
                return Err(e);
            },
        }
        i = i + 1;
    }
    assert forall|j: int| 0 <= j < models.len() implies outlines(
        models[j],
        names[j],
        #[trigger] r.deep_view()[j],
    ) by {
        assert(outlines(models[j], names[j], r@[j].deep_view()));
    }
    Ok(r)
}

} // verus!
