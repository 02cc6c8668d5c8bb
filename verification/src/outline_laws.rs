//! The methods of an outlined function do what the function does.
use crate::carrier::{
    carrier_has_a_slot_for_each_live_variable, category_of, has_slot, is_carrier, live_at_one,
    live_later, loads, slot_of, stores, CarrierArrayModel,
};
use crate::carrier_run::{
    all_handle_carrier, are_carrier_arrays, carrier_has_arrays, front_comes_first, handled,
    is_load_name, live_variables_are_stored, making_keeps_variables, prefix_is_taken_off,
    storing_keeps_variables, variables_are_restored,
};
use crate::components::{all_reachable, label_edge};
use crate::flow::{
    at_types, has_type, operands_of, successors_of, uses_of, variables_in, VariableModel,
};
use crate::liveness::{
    carried, closed_body, exposed, is_live_list, live_on_entry, live_within, reads_at,
};
use crate::oomir::{
    has_value, BasicBlockModel, CodeBlockModel, Constant, FunctionModel, InstructionModel,
    OperandModel, Text, Type, TypeModel,
};
use crate::outline::{
    are_parameters, argument, call_operands, calls_lead_to_later_chunks, chunk_blocks,
    chunk_function, chunk_parameters, dispatch_block, dispatch_label, dispatches, divides,
    first_chunk_starts_at_the_entry, invalid_label, is_chunk_function, is_entry, is_entry_list,
    is_external, is_external_list, is_generated, lemma_can_build, methods_hold_their_blocks,
    own_blocks, prologue, rewritten, rewritten_block, start_label, tail_block, tail_label,
    tail_labels, with_tails, NamingModel, OutlinePlanModel, PARAMETER_PREFIX, SELECTOR,
};
use crate::outline_run::{
    agree_at, agree_on, behind, blocks_end_alike, callee, calls_none_of, chosen,
    depth_does_not_matter, exit_of, handlers_are_served, is_carrier_name, is_regular,
    locals_on_entry, operand_value, outcome, uses_no_carrier, Exit, Locals, Meaning, MethodTable,
    Outcome, Slots,
};
use vstd::prelude::*;
use vstd::string::*;

verus! {

/// A function, how it is divided, and the methods that it is divided into.
pub struct Division {
    pub function: FunctionModel,
    pub plan: OutlinePlanModel,
    pub naming: NamingModel,
    pub types: Map<Text, Seq<TypeModel>>,
    pub components: Seq<Seq<Text>>,
    pub parts: Seq<FunctionModel>,
}

/// Whether the methods of a division are those that outlining makes. A chunk has no more entries,
/// and a carrier no more slots, than a number counts.
pub open spec fn is_division(d: Division) -> bool {
    &&& divides(d.plan, d.function, d.types, d.components)
    &&& closed_body(d.function.body)
    &&& all_reachable(d.function.body)
    &&& d.function.body.basic_blocks.contains_key(d.function.body.entry)
    &&& forall|a: Text| #[trigger]
        d.function.body.basic_blocks.contains_key(a) ==> d.naming.digests.contains_key(a)
    &&& d.parts.len() == d.plan.chunks.len()
    &&& forall|k: int|
        0 <= k < d.parts.len() ==> is_chunk_function(
            d.function,
            d.plan,
            d.naming,
            k,
            #[trigger] d.parts[k],
        )
    &&& forall|k: int|
        0 <= k < d.plan.entries.len() ==> (#[trigger] d.plan.entries[k]).len() <= i32::MAX
    &&& d.plan.carrier matches Some(arrays) ==> forall|a: int|
        0 <= a < arrays.len() ==> (#[trigger] arrays[a]).variables.len() <= i32::MAX
}

/// Whether the labels that outlining makes are new: no block has one, and different targets have
/// different ones.
pub open spec fn labels_are_new(d: Division) -> bool {
    let blocks = d.function.body.basic_blocks;
    &&& forall|a: Text, t: Text| #[trigger]
        blocks.contains_key(a) && blocks.contains_key(t) ==> a != #[trigger] tail_label(
            d.plan,
            d.naming,
            t,
        )
    &&& forall|s: Text, t: Text|
        blocks.contains_key(s) && blocks.contains_key(t) && #[trigger] tail_label(
            d.plan,
            d.naming,
            s,
        ) == #[trigger] tail_label(d.plan, d.naming, t) ==> s == t
    &&& forall|k: int| !blocks.contains_key(#[trigger] dispatch_label(k))
    &&& forall|k: int| !blocks.contains_key(#[trigger] invalid_label(k))
}

/// Whether a name is one that outlining gives to a variable.
pub open spec fn is_made_name(name: Text) -> bool {
    name == SELECTOR@ || is_carrier_name(name) || is_load_name(name)
}

/// Whether the variables that outlining makes are new: no live variable is called like one of them,
/// and the function handles no carrier itself.
pub open spec fn variables_are_new(d: Division) -> bool {
    let blocks = d.function.body.basic_blocks;
    &&& forall|a: Text, v: VariableModel|
        blocks.contains_key(a) && #[trigger] d.plan.live[a].contains(v) ==> !is_made_name(v.0)
    &&& forall|a: Text| #[trigger]
        blocks.contains_key(a) ==> uses_no_carrier(blocks[a].instructions)
}

/// Whether the methods of a division are found under their names, and the function itself calls
/// none of them.
pub open spec fn methods_are_new(d: Division, methods: MethodTable) -> bool {
    let blocks = d.function.body.basic_blocks;
    &&& forall|k: int|
        1 <= k < d.parts.len() ==> {
            let key = (d.naming.owner, (#[trigger] d.parts[k]).name);
            methods.contains_key(key) && methods[key] == d.parts[k]
        }
    &&& forall|a: Text| #[trigger]
        blocks.contains_key(a) ==> calls_none_of(blocks[a].instructions, methods)
}

/// Whether a block of a later chunk restores variables before it runs: it is the only entry, and
/// there is a carrier.
pub open spec fn restores(d: Division, k: int, label: Text) -> bool {
    d.plan.carrier is Some && k >= 1 && label == start_label(d.plan, k)
}

/// Whether no chunk goes back to a block that restores variables.
pub open spec fn nothing_is_restored_twice(d: Division) -> bool {
    forall|k: int, a: Text, t: Text|
        0 <= k < d.plan.chunks.len() && #[trigger] d.plan.chunks[k].contains(a)
            && #[trigger] label_edge(
            d.function.body,
            a,
            t,
        ) ==> !restores(d, k, t)
}

/// Whether only the last instruction of each block ends it, and handlers find what they need.
pub open spec fn blocks_are_regular(body: CodeBlockModel, types: Map<Text, Seq<TypeModel>>)
    -> bool {
    forall|a: Text| #[trigger]
        body.basic_blocks.contains_key(a) ==> is_regular(body.basic_blocks[a].instructions)
            && handlers_are_served(body, types, a)
}

/// Whether a function is divided into methods under new names, so that the methods can do the same.
pub open spec fn is_sound_division(d: Division, methods: MethodTable) -> bool {
    &&& is_division(d)
    &&& labels_are_new(d)
    &&& variables_are_new(d)
    &&& methods_are_new(d, methods)
    &&& nothing_is_restored_twice(d)
    &&& blocks_are_regular(d.function.body, d.types)
}

/// Whether different numbers are different values.
pub open spec fn numbers_differ(m: Meaning) -> bool {
    forall|i: i32, j: i32|
        (#[trigger] (m.constant)(Constant::I32(i))) == (#[trigger] (m.constant)(Constant::I32(j)))
            ==> i == j
}

/// The labels that outlining makes differ from one another.
proof fn made_labels_differ(d: Division, t: Text, k: int)
    ensures
        tail_label(d.plan, d.naming, t) != dispatch_label(k),
        tail_label(d.plan, d.naming, t) != invalid_label(k),
        dispatch_label(k) != invalid_label(k),
{
    reveal_strlit("$outlined$tail$");
    reveal_strlit("$outlined$dispatch$");
    reveal_strlit("$outlined$invalid$");
    let tail = tail_label(d.plan, d.naming, t);
    assert("$outlined$tail$"@[10] == 't');
    assert("$outlined$dispatch$"@[10] == 'd');
    assert("$outlined$invalid$"@[10] == 'i');
    assert(tail[10] == "$outlined$tail$"@[10]);
    assert(dispatch_label(k)[10] == "$outlined$dispatch$"@[10]);
    assert(invalid_label(k)[10] == "$outlined$invalid$"@[10]);
}

/// Among the blocks with the tail blocks of targets stands that of each target.
proof fn tails_are_there(d: Division, blocks: Map<Text, BasicBlockModel>, targets: Seq<Text>,
    t: Text)
    requires
        labels_are_new(d),
        targets.contains(t),
        forall|i: int| 0 <= i < targets.len() ==> d.function.body.basic_blocks.contains_key(
            #[trigger] targets[i],
        ),
    ensures
        ({
            let all = with_tails(blocks, d.function, d.plan, d.naming, targets);
            let label = tail_label(d.plan, d.naming, t);
            all.contains_key(label) && all[label] == tail_block(d.function, d.plan, d.naming, t)
        }),
    decreases targets.len(),
{
    let front = targets.drop_last();
    let last = targets.last();
    assert(last == targets[targets.len() - 1]);
    let i = choose|i: int| 0 <= i < targets.len() && targets[i] == t;
    if last != t {
        assert(front[i] == t);
        assert forall|j: int| 0 <= j < front.len()
            implies d.function.body.basic_blocks.contains_key(#[trigger] front[j]) by {
            assert(front[j] == targets[j]);
        }
        tails_are_there(d, blocks, front, t);
        assert(tail_label(d.plan, d.naming, last) != tail_label(d.plan, d.naming, t));
    }
}

/// The labels of other chunks that a chunk transfers to are blocks.
proof fn targets_are_blocks(d: Division, k: int, targets: Seq<Text>)
    requires
        is_division(d),
        0 <= k < d.parts.len(),
        is_external_list(d.function.body, d.plan.chunks[k], targets),
    ensures
        forall|i: int| 0 <= i < targets.len() ==> d.function.body.basic_blocks.contains_key(
            #[trigger] targets[i],
        ),
{
    let body = d.function.body;
    assert forall|i: int| 0 <= i < targets.len() implies body.basic_blocks.contains_key(
        #[trigger] targets[i],
    ) by {
        let t = targets[i];
        assert(targets.contains(t));
        assert(is_external(body, d.plan.chunks[k], t));
        let a = choose|a: Text| d.plan.chunks[k].contains(a) && #[trigger] label_edge(body, a, t);
        assert(successors_of(body.basic_blocks[a].instructions).contains(t));
    }
}

/// The instructions of the tail block of a target: what stores variables, the call and the return.
pub open spec fn tail_front(d: Division, t: Text) -> Seq<InstructionModel> {
    match d.plan.carrier {
        Some(arrays) => stores(arrays, d.plan.live[t]),
        None => Seq::empty(),
    }
}

/// The arrays of a division are those of a carrier.
proof fn division_has_arrays(d: Division)
    requires
        is_division(d),
    ensures
        d.plan.carrier matches Some(arrays) ==> are_carrier_arrays(arrays) && is_carrier(
            d.plan.live,
            d.plan.entries,
            arrays,
        ),
{
    match d.plan.carrier {
        Some(arrays) => {
            carrier_has_arrays(d.plan.live, d.plan.entries, arrays);
        },
        None => {},
    }
}

/// The method of a chunk has the tail block of each target.
proof fn tail_block_is_there(m: Meaning, d: Division, k: int, targets: Seq<Text>, t: Text)
    requires
        is_division(d),
        labels_are_new(d),
        0 <= k < d.parts.len(),
        is_external_list(d.function.body, d.plan.chunks[k], targets),
        targets.contains(t),
    ensures
        ({
            let blocks = chunk_function(d.function, d.plan, d.naming, k, targets).body.basic_blocks;
            let label = tail_label(d.plan, d.naming, t);
            blocks.contains_key(label) && blocks[label].instructions == tail_block(
                d.function,
                d.plan,
                d.naming,
                t,
            ).instructions
        }),
{
    let own = own_blocks(d.function, d.plan, k);
    targets_are_blocks(d, k, targets);
    tails_are_there(d, own, targets, t);
    made_labels_differ(d, t, k);
    division_has_arrays(d);
    let label = tail_label(d.plan, d.naming, t);
    let blocks = chunk_blocks(d.function, d.plan, d.naming, k, targets);
    let tail = tail_block(d.function, d.plan, d.naming, t);
    let replacements = tail_labels(d.plan, d.naming, targets);
    assert(d.function.body.basic_blocks.contains_key(t)) by {
        let i = choose|i: int| 0 <= i < targets.len() && targets[i] == t;
        assert(d.function.body.basic_blocks.contains_key(targets[i]));
    }
    start_is_no_tail(d, k, t);
    assert(blocks[label] == rewritten_block(tail, replacements));
    let front = tail_front(d, t);
    assert forall|i: int| 0 <= i < tail.instructions.len() implies rewritten(
        #[trigger] tail.instructions[i],
        replacements,
    ) == tail.instructions[i] by {
        match d.plan.carrier {
            Some(arrays) => {
                let locals: Locals = |v: VariableModel| 0;
                let slots: Slots = |name: Text, i: int| 0;
                storing_keeps_variables(m, arrays, d.plan.live[t], locals, slots);
                if i < front.len() {
                    assert(tail.instructions[i] == front[i]);
                    assert(front[i] is ArrayStore);
                }
            },
            None => {},
        }
    }
    assert(blocks[label].instructions =~= tail.instructions);
}

/// A method does not start at a tail block.
proof fn start_is_no_tail(d: Division, k: int, t: Text)
    requires
        is_division(d),
        labels_are_new(d),
        0 <= k < d.parts.len(),
        d.function.body.basic_blocks.contains_key(t),
    ensures
        start_label(d.plan, k) != tail_label(d.plan, d.naming, t),
        dispatches(d.plan, k) || d.plan.chunks[k].contains(start_label(d.plan, k)),
        dispatches(d.plan, k) || d.plan.entries[k].contains(start_label(d.plan, k)),
{
    made_labels_differ(d, t, k);
    if !dispatches(d.plan, k) {
        lemma_can_build(d.plan, d.naming, d.function, d.types, d.components, k);
        let a = d.plan.entries[k][0];
        assert(is_entry_list(d.function.body, d.plan.chunks[k], d.plan.entries[k]));
        assert(d.plan.entries[k].contains(a));
        assert(is_entry(d.function.body, d.plan.chunks[k], a));
        assert(d.function.body.basic_blocks.contains_key(a));
    }
}

/// The method of a chunk with several entries has the block that selects one.
proof fn dispatch_is_there(d: Division, k: int, targets: Seq<Text>)
    requires
        is_division(d),
        dispatches(d.plan, k),
    ensures
        ({
            let blocks = chunk_function(d.function, d.plan, d.naming, k, targets).body.basic_blocks;
            blocks.contains_key(dispatch_label(k)) && blocks[dispatch_label(k)].instructions
                == prologue(d.plan, k) + dispatch_block(d.plan, k).instructions
        }),
{
    made_labels_differ(d, d.function.name, k);
    let blocks = chunk_function(d.function, d.plan, d.naming, k, targets).body.basic_blocks;
    assert(blocks[dispatch_label(k)].instructions =~= prologue(d.plan, k) + dispatch_block(
        d.plan,
        k,
    ).instructions);
}

/// What stands in front of a block in the method of its chunk.
pub open spec fn front_of(d: Division, k: int, label: Text) -> Seq<InstructionModel> {
    if label == start_label(d.plan, k) {
        prologue(d.plan, k)
    } else {
        Seq::empty()
    }
}

/// The block of a chunk stands in its method, with the labels of tail blocks for those of other
/// chunks.
proof fn block_is_there(d: Division, k: int, targets: Seq<Text>, label: Text)
    requires
        is_division(d),
        labels_are_new(d),
        0 <= k < d.parts.len(),
        is_external_list(d.function.body, d.plan.chunks[k], targets),
        d.plan.chunks[k].contains(label),
    ensures
        ({
            let blocks = chunk_function(d.function, d.plan, d.naming, k, targets).body.basic_blocks;
            let replacements = tail_labels(d.plan, d.naming, targets);
            d.function.body.basic_blocks.contains_key(label) && blocks.contains_key(label)
                && blocks[label].instructions == front_of(d, k, label)
                + d.function.body.basic_blocks[label].instructions.map_values(
                |i: InstructionModel| rewritten(i, replacements),
            )
        }),
{
    targets_are_blocks(d, k, targets);
    assert(d.function.body.basic_blocks.contains_key(label));
    assert(!is_generated(d.plan, d.naming, k, targets, label)) by {
        if exists|i: int|
            0 <= i < targets.len() && label == #[trigger] tail_label(d.plan, d.naming, targets[i]) {
            let i = choose|i: int|
                0 <= i < targets.len() && label == #[trigger] tail_label(
                    d.plan,
                    d.naming,
                    targets[i],
                );
            assert(d.function.body.basic_blocks.contains_key(targets[i]));
        }
    }
    methods_hold_their_blocks(d.function, d.plan, d.naming, k, targets, label);
    let blocks = chunk_function(d.function, d.plan, d.naming, k, targets).body.basic_blocks;
    let changed = d.function.body.basic_blocks[label].instructions.map_values(
        |i: InstructionModel| rewritten(i, tail_labels(d.plan, d.naming, targets)),
    );
    assert(blocks[label].instructions =~= front_of(d, k, label) + changed);
}

/// What instructions read has a JVM value.
proof fn variables_have_values(operands: Seq<OperandModel>, v: VariableModel)
    requires
        variables_in(operands).contains(v),
    ensures
        has_value(v.1),
    decreases operands.len(),
{
    let rest = variables_in(operands.drop_last());
    let i = choose|i: int| 0 <= i < variables_in(operands).len() && variables_in(operands)[i] == v;
    if i < rest.len() {
        assert(rest[i] == v);
        variables_have_values(operands.drop_last(), v);
    }
}

/// Variables that are live have a JVM value.
proof fn live_variables_have_values(d: Division, steps: nat, label: Text, v: VariableModel)
    requires
        is_division(d),
        live_within(d.function.body, d.types, steps, label, v),
    ensures
        has_value(v.1),
    decreases steps,
{
    let instructions = d.function.body.basic_blocks[label].instructions;
    if exposed(instructions, d.types, v) {
        let k = choose|k: int| #[trigger] reads_at(instructions, d.types, v, k);
        let instruction = instructions[k];
        let read = variables_in(operands_of(instruction));
        if read.contains(v) {
            variables_have_values(operands_of(instruction), v);
        } else {
            let uses = uses_of(instruction, d.types);
            let i = choose|i: int| 0 <= i < uses.len() && uses[i] == v;
            assert(i >= read.len()) by {
                if i < read.len() {
                    assert(read[i] == v);
                }
            }
            match instruction {
                InstructionModel::ArrayStore { array, .. } => {
                    assert(at_types(array, d.types)[i - read.len()] == v);
                    assert(d.types[array].contains(v.1));
                    assert(has_type(d.types, array, v.1));
                },
                InstructionModel::ArrayFill { array, .. } => {
                    assert(at_types(array, d.types)[i - read.len()] == v);
                    assert(d.types[array].contains(v.1));
                    assert(has_type(d.types, array, v.1));
                },
                _ => {},
            }
        }
    } else {
        let s = choose|s: Text| #[trigger]
            carried(instructions, s, v) && live_within(
                d.function.body,
                d.types,
                (steps - 1) as nat,
                s,
                v,
            );
        live_variables_have_values(d, (steps - 1) as nat, s, v);
    }
}

/// The variables that are handed to a chunk are live on entry to it, and their names are their own.
proof fn parameter_is_live(d: Division, k: int, i: int)
    requires
        is_division(d),
        variables_are_new(d),
        1 <= k < d.parts.len(),
        0 <= i < d.plan.params[k].len(),
    ensures
        !is_made_name(d.plan.params[k][i].0),
{
    let v = d.plan.params[k][i];
    assert(are_parameters(d.plan, k));
    assert(d.plan.params[k].contains(v));
    assert(live_at_one(d.plan.live, d.plan.entries[k], v));
    let e = choose|e: int|
        0 <= e < d.plan.entries[k].len()
            && d.plan.live[#[trigger] d.plan.entries[k][e]].contains(v);
    let a = d.plan.entries[k][e];
    assert(is_entry_list(d.function.body, d.plan.chunks[k], d.plan.entries[k]));
    assert(d.plan.entries[k].contains(a));
    assert(is_entry(d.function.body, d.plan.chunks[k], a));
    assert(d.function.body.basic_blocks.contains_key(a));
}

/// The selector is called like no array of a carrier.
proof fn selector_is_no_array()
    ensures
        !is_carrier_name(SELECTOR@),
        !is_load_name(SELECTOR@),
{
    reveal_strlit("__outlined_selector");
    reveal_strlit("$outlined$carrier$");
    reveal_strlit("$outlined$load$");
    assert(SELECTOR@[0] == '_');
    assert("$outlined$carrier$"@[0] == '$');
    assert("$outlined$load$"@[0] == '$');
    if is_carrier_name(SELECTOR@) {
        assert(SELECTOR@.take("$outlined$carrier$"@.len() as int)[0] == SELECTOR@[0]);
    }
    if is_load_name(SELECTOR@) {
        assert(SELECTOR@.take("$outlined$load$"@.len() as int)[0] == SELECTOR@[0]);
    }
}

/// The selector, and the live variables or the arrays of the carrier, have parameters of their own.
proof fn parameters_are_distinct(d: Division, k: int, i: int, j: int)
    requires
        is_division(d),
        variables_are_new(d),
        1 <= k < d.parts.len(),
        0 <= i < chunk_parameters(d.plan, k).len(),
        0 <= j < chunk_parameters(d.plan, k).len(),
        chunk_parameters(d.plan, k)[i] == chunk_parameters(d.plan, k)[j],
    ensures
        i == j,
{
    let first: int = if d.plan.entries[k].len() > 1 {
        1
    } else {
        0
    };
    assert(are_parameters(d.plan, k));
    division_has_arrays(d);
    selector_is_no_array();
    match d.plan.carrier {
        Some(arrays) => {
            if i < first && j >= first {
                prefix_is_taken_off(PARAMETER_PREFIX@, SELECTOR@, arrays[j - first].name);
            } else if j < first && i >= first {
                prefix_is_taken_off(PARAMETER_PREFIX@, SELECTOR@, arrays[i - first].name);
            } else if i >= first && j >= first {
                prefix_is_taken_off(
                    PARAMETER_PREFIX@,
                    arrays[i - first].name,
                    arrays[j - first].name,
                );
                assert(arrays[i - first].name == arrays[j - first].name);
            }
        },
        None => {
            let params = d.plan.params[k];
            if i < first && j >= first {
                parameter_is_live(d, k, j - first);
                prefix_is_taken_off(PARAMETER_PREFIX@, SELECTOR@, params[j - first].0);
            } else if j < first && i >= first {
                parameter_is_live(d, k, i - first);
                prefix_is_taken_off(PARAMETER_PREFIX@, SELECTOR@, params[i - first].0);
            } else if i >= first && j >= first {
                prefix_is_taken_off(PARAMETER_PREFIX@, params[i - first].0, params[j - first].0);
                assert(params[i - first] == params[j - first]);
            }
        },
    }
}

/// The values that a call hands to a chunk.
pub open spec fn handed(m: Meaning, d: Division, t: Text, locals: Locals) -> Seq<int> {
    call_operands(d.plan, d.plan.chunk_of[t] as int, t).map_values(
        |a: OperandModel| operand_value(m, a, locals),
    )
}

/// A method finds in its variables what is live on entry to the block where it goes on.
proof fn variables_arrive(m: Meaning, d: Division, k: int, t: Text, locals: Locals)
    requires
        is_division(d),
        variables_are_new(d),
        1 <= k < d.parts.len(),
        d.plan.chunk_of[t] == k,
        d.plan.entries[k].contains(t),
        d.function.body.basic_blocks.contains_key(t),
    ensures
        d.plan.carrier is None ==> agree_on(
            d.function.body,
            d.types,
            t,
            locals,
            locals_on_entry(m, d.parts[k], handed(m, d, t, locals)),
        ),
        d.plan.entries[k].len() > 1 ==> locals_on_entry(m, d.parts[k], handed(m, d, t, locals))(
            (SELECTOR@, Type::I32),
        ) == (m.constant)(Constant::I32(d.plan.entries[k].index_of(t) as i32)),
{
    let f = d.parts[k];
    assert(is_chunk_function(d.function, d.plan, d.naming, k, f));
    let all = chunk_parameters(d.plan, k);
    assert(f.signature.params == all);
    let values = handed(m, d, t, locals);
    let inside = locals_on_entry(m, f, values);
    let params = d.plan.params[k];
    assert(are_parameters(d.plan, k));
    let first: int = if d.plan.entries[k].len() > 1 {
        1
    } else {
        0
    };
    assert forall|v: VariableModel|
        d.plan.carrier is None && live_on_entry(
            d.function.body,
            d.types,
            t,
            v,
        ) implies #[trigger] locals(
        v,
    ) == inside(v) by {
        let steps = choose|steps: nat| #[trigger] live_within(
            d.function.body,
            d.types,
            steps,
            t,
            v,
        );
        live_variables_have_values(d, steps, t, v);
        assert(is_live_list(d.function.body, d.types, t, d.plan.live[t]));
        assert(d.plan.live[t].contains(v));
        let e = choose|e: int| 0 <= e < d.plan.entries[k].len() && d.plan.entries[k][e] == t;
        assert(d.plan.live[d.plan.entries[k][e]].contains(v));
        assert(live_at_one(d.plan.live, d.plan.entries[k], v));
        assert(params.contains(v));
        let j = choose|j: int| 0 <= j < params.len() && params[j] == v;
        let parameter = (PARAMETER_PREFIX@ + v.0, v.1);
        assert(all[first + j] == parameter);
        assert(all.contains(parameter));
        let i = all.index_of(parameter);
        assert(0 <= i < all.len() && all[i] == parameter);
        parameters_are_distinct(d, k, i, first + j);
        assert(call_operands(d.plan, k, t)[first + j] == argument(d.plan, t, v));
        assert(values[i] == locals(v));
    }
    if first == 1 {
        let parameter = (PARAMETER_PREFIX@ + SELECTOR@, Type::I32);
        assert(all[0] == parameter);
        assert(all.contains(parameter));
        let i = all.index_of(parameter);
        assert(0 <= i < all.len() && all[i] == parameter);
        parameters_are_distinct(d, k, i, 0);
        assert(values[0] == operand_value(m, call_operands(d.plan, k, t)[0], locals));
    }
}

/// The selector leads to the entry that it stands for.
proof fn selector_leads_to_its_entry(m: Meaning, d: Division, k: int, index: int, from: nat)
    requires
        is_division(d),
        numbers_differ(m),
        0 <= k < d.plan.entries.len(),
        from <= index < d.plan.entries[k].len(),
    ensures
        ({
            let targets = Seq::new(
                d.plan.entries[k].len(),
                |i: int| (Constant::<Text>::I32(i as i32), d.plan.entries[k][i]),
            );
            chosen(
                m,
                targets,
                invalid_label(k),
                (m.constant)(Constant::I32(index as i32)),
                from,
            ) == d.plan.entries[k][index]
        }),
    decreases index - from,
{
    if from < index {
        assert((m.constant)(Constant::I32(from as i32)) != (m.constant)(
            Constant::I32(index as i32),
        ));
        selector_leads_to_its_entry(m, d, k, index, from + 1);
    }
}

/// A method without result returns the value of a variable that holds nothing.
proof fn nothing_is_blank(
    m: Meaning,
    methods: MethodTable,
    types: Map<Text, Seq<TypeModel>>,
    function: FunctionModel,
    label: Text,
    locals: Locals,
    slots: Slots,
    state: int,
    depth: nat,
)
    requires
        !has_value(function.signature.ret),
    ensures
        outcome(m, methods, types, function, label, locals, slots, state, depth) matches Some(
            (Outcome::Gives { value, .. }, _),
        ) ==> value == m.blank,
    decreases depth,
{
    if depth > 0 && function.body.basic_blocks.contains_key(label) {
        match exit_of(
            m,
            methods,
            types,
            function.body.basic_blocks[label].instructions,
            0,
            None,
            locals,
            slots,
            state,
            (depth - 1) as nat,
        ) {
            Exit::Goes { label, locals, slots, state } => {
                nothing_is_blank(
                    m,
                    methods,
                    types,
                    function,
                    label,
                    locals,
                    slots,
                    state,
                    (depth - 1) as nat,
                );
            },
            _ => {},
        }
    }
}

/// What the slot of a variable holds.
pub open spec fn slot_value(arrays: Seq<CarrierArrayModel>, slots: Slots, v: VariableModel) -> int {
    slots(arrays[slot_of(arrays, v).0].name, slot_of(arrays, v).1)
}

/// Whether the slots hold what is live on entry to a block.
pub open spec fn slots_agree(d: Division, label: Text, one: Locals, slots: Slots) -> bool {
    forall|v: VariableModel|
        live_on_entry(d.function.body, d.types, label, v) ==> #[trigger] one(v) == slot_value(
            d.plan.carrier->0,
            slots,
            v,
        )
}

/// Whether a method can run a block of its chunk as the function does: its variables agree on what
/// is live there, or the slots from which the block restores them do.
pub open spec fn is_ready(
    d: Division,
    k: int,
    label: Text,
    one: Locals,
    other: Locals,
    slots: Slots,
) -> bool {
    if restores(d, k, label) {
        slots_agree(d, label, one, slots)
    } else {
        agree_on(d.function.body, d.types, label, one, other)
    }
}

/// What is live on entry to a block of a later chunk has a slot and a name of its own.
proof fn live_variable_has_a_slot(d: Division, h: int, t: Text, v: VariableModel)
    requires
        is_division(d),
        variables_are_new(d),
        1 <= h < d.parts.len(),
        d.plan.entries[h].contains(t),
        d.function.body.basic_blocks.contains_key(t),
        live_on_entry(d.function.body, d.types, t, v),
    ensures
        has_value(v.1),
        !is_made_name(v.0),
        d.plan.live[t].contains(v),
        d.plan.params[h].contains(v),
        d.plan.carrier matches Some(arrays) ==> has_slot(arrays, v),
{
    let steps = choose|steps: nat| #[trigger]
        live_within(d.function.body, d.types, steps, t, v);
    live_variables_have_values(d, steps, t, v);
    assert(is_live_list(d.function.body, d.types, t, d.plan.live[t]));
    assert(d.plan.live[t].contains(v));
    let e = choose|e: int| 0 <= e < d.plan.entries[h].len() && d.plan.entries[h][e] == t;
    assert(d.plan.live[d.plan.entries[h][e]].contains(v));
    assert(live_at_one(d.plan.live, d.plan.entries[h], v));
    assert(are_parameters(d.plan, h));
    assert(live_later(d.plan.live, d.plan.entries, v));
    match d.plan.carrier {
        Some(arrays) => {
            carrier_has_a_slot_for_each_live_variable(d.plan.live, d.plan.entries, arrays, v);
            let (a, j) = choose|a: int, j: int|
                #![trigger arrays[a].variables[j]]
                0 <= a < arrays.len() && 0 <= j < arrays[a].variables.len()
                    && arrays[a].variables[j] == v && arrays[a].element_type
                    == category_of(v.1).1;
            assert(arrays[a].variables.contains(v));
        },
        None => {},
    }
}

/// Restoring the variables of a chunk makes them agree with what the slots hold.
proof fn restoring_agrees(
    m: Meaning,
    d: Division,
    h: int,
    t: Text,
    one: Locals,
    locals: Locals,
    slots: Slots,
)
    requires
        is_division(d),
        variables_are_new(d),
        1 <= h < d.parts.len(),
        d.plan.entries[h].contains(t),
        d.function.body.basic_blocks.contains_key(t),
        d.plan.carrier is Some,
        slots_agree(d, t, one, slots),
    ensures
        ({
            let (l, s) = handled(m, prologue(d.plan, h), locals, slots);
            &&& all_handle_carrier(prologue(d.plan, h))
            &&& s == slots
            &&& agree_on(d.function.body, d.types, t, one, l)
            &&& l((SELECTOR@, Type::I32)) == locals((SELECTOR@, Type::I32))
        }),
{
    let arrays = d.plan.carrier->0;
    division_has_arrays(d);
    lemma_can_build(d.plan, d.naming, d.function, d.types, d.components, h);
    let list = d.plan.params[h];
    let (l, s) = handled(m, prologue(d.plan, h), locals, slots);
    assert(prologue(d.plan, h) == loads(arrays, list));
    selector_is_no_array();
    let selector = (SELECTOR@, Type::<Text>::I32);
    variables_are_restored(m, arrays, list, locals, slots, selector);
    assert(!list.contains(selector)) by {
        if list.contains(selector) {
            let i = choose|i: int| 0 <= i < list.len() && list[i] == selector;
            parameter_is_live(d, h, i);
        }
    }
    assert forall|v: VariableModel| live_on_entry(
        d.function.body,
        d.types,
        t,
        v,
    ) implies #[trigger] one(
        v,
    ) == l(v) by {
        live_variable_has_a_slot(d, h, t, v);
        variables_are_restored(m, arrays, list, locals, slots, v);
        assert(one(v) == slot_value(arrays, slots, v));
    }
}

/// Behind what stands in front of a block, the variables agree on what is live there.
proof fn front_agrees(
    m: Meaning,
    d: Division,
    k: int,
    label: Text,
    one: Locals,
    other: Locals,
    slots: Slots,
)
    requires
        is_division(d),
        variables_are_new(d),
        0 <= k < d.parts.len(),
        d.plan.chunks[k].contains(label),
        is_ready(d, k, label, one, other, slots),
        dispatches(d.plan, k) ==> label != start_label(d.plan, k),
    ensures
        all_handle_carrier(front_of(d, k, label)),
        agree_on(
            d.function.body,
            d.types,
            label,
            one,
            handled(m, front_of(d, k, label), other, slots).0,
        ),
{
    let body = d.function.body;
    let front = front_of(d, k, label);
    assert(body.basic_blocks.contains_key(label));
    division_has_arrays(d);
    if label == start_label(d.plan, k) && d.plan.carrier is Some {
        let arrays = d.plan.carrier->0;
        if k == 0 {
            let unnamed = (Seq::<char>::empty(), Type::<Text>::I32);
            assert(!is_carrier_name(unnamed.0)) by {
                reveal_strlit("$outlined$carrier$");
            }
            making_keeps_variables(m, arrays, other, slots, unnamed);
            let l = handled(m, front, other, slots).0;
            assert forall|v: VariableModel| live_on_entry(
                body,
                d.types,
                label,
                v,
            ) implies #[trigger] one(
                v,
            ) == l(v) by {
                assert(is_live_list(body, d.types, label, d.plan.live[label]));
                assert(d.plan.live[label].contains(v));
                making_keeps_variables(m, arrays, other, slots, v);
                assert(one(v) == other(v));
            }
        } else {
            lemma_can_build(d.plan, d.naming, d.function, d.types, d.components, k);
            assert(d.plan.entries[k].contains(d.plan.entries[k][0]));
            restoring_agrees(m, d, k, label, one, other, slots);
        }
    } else {
        assert(front =~= Seq::<InstructionModel>::empty());
    }
}

/// The variables with which the method of a chunk comes to the entry that it is called for.
pub open spec fn arrival(m: Meaning, d: Division, t: Text, locals: Locals, slots: Slots) -> Locals {
    let h = d.plan.chunk_of[t] as int;
    let inside = locals_on_entry(m, d.parts[h], handed(m, d, t, locals));
    if dispatches(d.plan, h) {
        handled(m, prologue(d.plan, h), inside, slots).0
    } else {
        inside
    }
}

/// The slots behind the instructions that store what is live on entry to a target.
pub open spec fn slots_behind(
    m: Meaning,
    d: Division,
    t: Text,
    locals: Locals,
    slots: Slots,
) -> Slots {
    handled(m, tail_front(d, t), locals, slots).1
}

/// What a tail block stores is what is live on entry to the target.
proof fn storing_agrees(
    m: Meaning,
    d: Division,
    h: int,
    t: Text,
    one: Locals,
    locals: Locals,
    slots: Slots,
)
    requires
        is_division(d),
        variables_are_new(d),
        1 <= h < d.parts.len(),
        d.plan.entries[h].contains(t),
        d.function.body.basic_blocks.contains_key(t),
        agree_on(d.function.body, d.types, t, one, locals),
    ensures
        all_handle_carrier(tail_front(d, t)),
        handled(m, tail_front(d, t), locals, slots).0 == locals,
        d.plan.carrier is Some ==> slots_agree(d, t, one, slots_behind(m, d, t, locals, slots)),
{
    division_has_arrays(d);
    match d.plan.carrier {
        Some(arrays) => {
            storing_keeps_variables(m, arrays, d.plan.live[t], locals, slots);
            let s = slots_behind(m, d, t, locals, slots);
            assert forall|v: VariableModel| live_on_entry(
                d.function.body,
                d.types,
                t,
                v,
            ) implies #[trigger] one(
                v,
            ) == slot_value(arrays, s, v) by {
                live_variable_has_a_slot(d, h, t, v);
                live_variables_are_stored(m, arrays, d.plan.live[t], locals, slots, v);
                assert(one(v) == locals(v));
            }
        },
        None => {},
    }
}

/// The method of a chunk is ready for the entry that it is called for.
proof fn arrival_is_ready(
    m: Meaning,
    d: Division,
    h: int,
    t: Text,
    one: Locals,
    locals: Locals,
    slots: Slots,
)
    requires
        is_division(d),
        labels_are_new(d),
        variables_are_new(d),
        1 <= h < d.parts.len(),
        d.plan.chunk_of[t] == h,
        d.plan.entries[h].contains(t),
        d.function.body.basic_blocks.contains_key(t),
        agree_on(d.function.body, d.types, t, one, locals),
        d.plan.carrier is Some ==> slots_agree(d, t, one, slots),
    ensures
        is_ready(d, h, t, one, arrival(m, d, t, locals, slots), slots),
{
    let inside = locals_on_entry(m, d.parts[h], handed(m, d, t, locals));
    variables_arrive(m, d, h, t, locals);
    if d.plan.carrier is Some {
        if dispatches(d.plan, h) {
            restoring_agrees(m, d, h, t, one, inside, slots);
            assert(!d.function.body.basic_blocks.contains_key(dispatch_label(h)));
        } else {
            let entries = d.plan.entries[h];
            let i = choose|i: int| 0 <= i < entries.len() && entries[i] == t;
            assert(entries[0] == t);
        }
    } else if dispatches(d.plan, h) {
        assert(prologue(d.plan, h) =~= Seq::<InstructionModel>::empty());
    }
}

/// The method of a chunk goes to the entry that it is called for.
proof fn chunk_is_entered(
    m: Meaning,
    d: Division,
    methods: MethodTable,
    h: int,
    t: Text,
    one: Locals,
    locals: Locals,
    slots: Slots,
    state: int,
    depth: nat,
) -> (n: nat)
    requires
        is_division(d),
        labels_are_new(d),
        variables_are_new(d),
        numbers_differ(m),
        1 <= h < d.parts.len(),
        d.plan.chunk_of[t] == h,
        d.plan.entries[h].contains(t),
        d.function.body.basic_blocks.contains_key(t),
        d.plan.carrier is Some ==> slots_agree(d, t, one, slots),
    ensures
        outcome(
            m,
            methods,
            d.types,
            d.parts[h],
            d.parts[h].body.entry,
            locals_on_entry(m, d.parts[h], handed(m, d, t, locals)),
            slots,
            state,
            n,
        ) == outcome(
            m,
            methods,
            d.types,
            d.parts[h],
            t,
            arrival(m, d, t, locals, slots),
            slots,
            state,
            depth,
        ),
{
    let part = d.parts[h];
    let inside = locals_on_entry(m, part, handed(m, d, t, locals));
    assert(is_chunk_function(d.function, d.plan, d.naming, h, part));
    let targets = choose|targets: Seq<Text>| #[trigger]
        is_external_list(d.function.body, d.plan.chunks[h], targets) && part == chunk_function(
            d.function,
            d.plan,
            d.naming,
            h,
            targets,
        );
    let entries = d.plan.entries[h];
    if dispatches(d.plan, h) {
        dispatch_is_there(d, h, targets);
        variables_arrive(m, d, h, t, locals);
        let first = prologue(d.plan, h);
        let choice = dispatch_block(d.plan, h).instructions;
        if d.plan.carrier is Some {
            restoring_agrees(m, d, h, t, one, inside, slots);
        } else {
            assert(first =~= Seq::<InstructionModel>::empty());
        }
        let (l, s) = handled(m, first, inside, slots);
        assert(s == slots);
        front_comes_first(m, methods, d.types, first, choice, inside, slots, state, depth);
        let index = entries.index_of(t);
        assert(0 <= index < entries.len() && entries[index] == t);
        selector_leads_to_its_entry(m, d, h, index, 0);
        assert(exit_of(m, methods, d.types, choice, 0, None, l, slots, state, depth)
            == Exit::Goes { label: t, locals: l, slots, state });
        depth + 1
    } else {
        let i = choose|i: int| 0 <= i < entries.len() && entries[i] == t;
        assert(entries[0] == t);
        depth
    }
}

/// The tail block of a target does what the method of the target's chunk does.
proof fn tail_does_what_the_chunk_does(
    m: Meaning,
    d: Division,
    methods: MethodTable,
    k: int,
    t: Text,
    one: Locals,
    locals: Locals,
    slots: Slots,
    state: int,
    depth: nat,
)
    requires
        is_sound_division(d, methods),
        0 <= k < d.parts.len(),
        is_external(d.function.body, d.plan.chunks[k], t),
        agree_on(d.function.body, d.types, t, one, locals),
        outcome(
            m,
            methods,
            d.types,
            d.parts[d.plan.chunk_of[t] as int],
            d.parts[d.plan.chunk_of[t] as int].body.entry,
            locals_on_entry(m, d.parts[d.plan.chunk_of[t] as int], handed(m, d, t, locals)),
            slots_behind(m, d, t, locals, slots),
            state,
            depth,
        ) is Some,
    ensures
        outcome(
            m,
            methods,
            d.types,
            d.parts[k],
            tail_label(d.plan, d.naming, t),
            locals,
            slots,
            state,
            depth + 1,
        ) == outcome(
            m,
            methods,
            d.types,
            d.parts[d.plan.chunk_of[t] as int],
            d.parts[d.plan.chunk_of[t] as int].body.entry,
            locals_on_entry(m, d.parts[d.plan.chunk_of[t] as int], handed(m, d, t, locals)),
            slots_behind(m, d, t, locals, slots),
            state,
            depth,
        ),
{
    calls_lead_to_later_chunks(d.plan, d.function, d.types, d.components, k, t);
    let h = d.plan.chunk_of[t] as int;
    assert(is_chunk_function(d.function, d.plan, d.naming, k, d.parts[k]));
    assert(is_chunk_function(d.function, d.plan, d.naming, h, d.parts[h]));
    let targets = choose|targets: Seq<Text>| #[trigger]
        is_external_list(d.function.body, d.plan.chunks[k], targets) && d.parts[k]
            == chunk_function(d.function, d.plan, d.naming, k, targets);
    assert(targets.contains(t));
    targets_are_blocks(d, k, targets);
    assert(d.function.body.basic_blocks.contains_key(t)) by {
        let i = choose|i: int| 0 <= i < targets.len() && targets[i] == t;
        assert(d.function.body.basic_blocks.contains_key(targets[i]));
    }
    tail_block_is_there(m, d, k, targets, t);
    storing_agrees(m, d, h, t, one, locals, slots);
    let label = tail_label(d.plan, d.naming, t);
    let tail = tail_block(d.function, d.plan, d.naming, t).instructions;
    let front = tail_front(d, t);
    let n = front.len() as int;
    let call = tail[n];
    let back = tail[n + 1];
    let two = seq![call, back];
    assert(tail =~= front + two);
    let left = slots_behind(m, d, t, locals, slots);
    front_comes_first(m, methods, d.types, front, two, locals, slots, state, depth);
    let ret = d.function.signature.ret;
    let f = d.parts[h];
    let key = (d.naming.owner, f.name);
    assert(methods.contains_key(key) && methods[key] == f);
    assert(callee(methods, call) == Some((f, call_operands(d.plan, h, t))));
    let values = call_operands(d.plan, h, t).map_values(|a: OperandModel| operand_value(m, a,
        locals));
    assert(values == handed(m, d, t, locals));
    let inside = locals_on_entry(m, f, values);
    let (reached, last) = outcome(
        m,
        methods,
        d.types,
        f,
        f.body.entry,
        inside,
        left,
        state,
        depth,
    )->0;
    assert(f.signature.ret == ret);
    assert(d.parts[k].signature.ret == ret);
    assert(back is Return);
    let start = exit_of(m, methods, d.types, two, 0, None, locals, left, state, depth);
    match reached {
        Outcome::Gives { value, state: next } => {
            let after = behind(m, call, locals, value);
            let end = exit_of(m, methods, d.types, two, 1, None, after, last, next, depth);
            assert(start == end);
            if !has_value(ret) {
                nothing_is_blank(m, methods, d.types, f, f.body.entry, inside, left, state, depth);
            }
            assert(end == Exit::Ends { outcome: reached, slots: last });
        },
        Outcome::Throws { .. } => {
            assert(start == Exit::Ends { outcome: reached, slots: last });
        },
    }
}

/// The method of a chunk does from one of its blocks on what the function does from there on.
#[verifier::rlimit(60)]
proof fn chunk_goes_on(
    m: Meaning,
    d: Division,
    methods: MethodTable,
    k: int,
    label: Text,
    one: Locals,
    other: Locals,
    first: Slots,
    slots: Slots,
    state: int,
    depth: nat,
) -> (n: nat)
    requires
        is_sound_division(d, methods),
        numbers_differ(m),
        0 <= k < d.parts.len(),
        d.plan.chunks[k].contains(label),
        is_ready(d, k, label, one, other, slots),
        outcome(m, Map::empty(), d.types, d.function, label, one, first, state, depth) is Some,
    ensures
        outcome(m, methods, d.types, d.parts[k], label, other, slots, state, n) matches Some((x, _))
            && x == (
                outcome(m, Map::empty(), d.types, d.function, label, one, first, state, depth)->0
            ).0,
    decreases depth,
{
    let body = d.function.body;
    let part = d.parts[k];
    assert(is_chunk_function(d.function, d.plan, d.naming, k, part));
    let targets = choose|targets: Seq<Text>| #[trigger]
        is_external_list(body, d.plan.chunks[k], targets) && part == chunk_function(
            d.function,
            d.plan,
            d.naming,
            k,
            targets,
        );
    let replacements = tail_labels(d.plan, d.naming, targets);
    block_is_there(d, k, targets, label);
    let instructions = body.basic_blocks[label].instructions;
    let front = front_of(d, k, label);
    let changed = instructions.map_values(|i: InstructionModel| rewritten(i, replacements));
    assert(part.body.basic_blocks[label].instructions == front + changed);
    assert(dispatches(d.plan, k) ==> label != start_label(d.plan, k));
    front_agrees(m, d, k, label, one, other, slots);
    let (l, s) = handled(m, front, other, slots);
    let less = (depth - 1) as nat;
    assert(agree_at(body, d.types, label, 0, one, l));
    blocks_end_alike(
        m,
        methods,
        body,
        d.types,
        label,
        replacements,
        0,
        one,
        l,
        first,
        s,
        state,
        less,
        0,
    );
    assert(calls_none_of(changed, methods)) by {
        assert forall|i: int| 0 <= i < changed.len() implies (#[trigger] callee(
            methods,
            changed[i],
        )) is None by {
            assert(callee(methods, instructions[i]) is None);
        }
    }
    assert(part.signature.ret == d.function.signature.ret);
    let end = exit_of(m, methods, d.types, changed, 0, None, l, s, state, 0);
    match exit_of(m, Map::empty(), d.types, instructions, 0, None, one, first, state, less) {
        Exit::Goes { label: t, locals: e, slots: kept, state: next } => {
            let f = end->Goes_locals;
            assert(label_edge(body, label, t));
            assert(body.basic_blocks.contains_key(t));
            assert(end->Goes_slots == s);
            if d.plan.chunks[k].contains(t) {
                assert(!targets.contains(t)) by {
                    if targets.contains(t) {
                        assert(is_external(body, d.plan.chunks[k], t));
                    }
                }
                assert(!restores(d, k, t));
                let n = chunk_goes_on(m, d, methods, k, t, e, f, kept, s, next, less);
                depth_does_not_matter(m, methods, d.types, changed, 0, None, l, s, state, 0, n);
                front_comes_first(m, methods, d.types, front, changed, other, slots, state, n);
                n + 1
            } else {
                assert(is_external(body, d.plan.chunks[k], t));
                assert(targets.contains(t));
                calls_lead_to_later_chunks(d.plan, d.function, d.types, d.components, k, t);
                let h = d.plan.chunk_of[t] as int;
                let left = slots_behind(m, d, t, f, s);
                storing_agrees(m, d, h, t, e, f, s);
                arrival_is_ready(m, d, h, t, e, f, left);
                assert(d.plan.chunks[h].contains(t));
                let there = arrival(m, d, t, f, left);
                let n = chunk_goes_on(m, d, methods, h, t, e, there, kept, left, next, less);
                let n = chunk_is_entered(m, d, methods, h, t, e, f, left, next, n);
                tail_does_what_the_chunk_does(m, d, methods, k, t, e, f, s, next, n);
                let more = n + 1;
                depth_does_not_matter(m, methods, d.types, changed, 0, None, l, s, state, 0, more);
                front_comes_first(m, methods, d.types, front, changed, other, slots, state, more);
                n + 2
            }
        },
        Exit::Ends { .. } => {
            front_comes_first(m, methods, d.types, front, changed, other, slots, state, 0);
            1
        },
        Exit::Stops => { 0 },
    }
}

/// The methods of an outlined function do what the function does: from the same variables and the
/// same state, the first of them returns the same result or throws the same exception, and leaves
/// the same state, whatever the instructions mean.
pub proof fn outlined_methods_do_the_same(
    m: Meaning,
    d: Division,
    methods: MethodTable,
    locals: Locals,
    slots: Slots,
    state: int,
    depth: nat,
) -> (n: nat)
    requires
        is_sound_division(d, methods),
        numbers_differ(m),
        outcome(
            m,
            Map::empty(),
            d.types,
            d.function,
            d.function.body.entry,
            locals,
            slots,
            state,
            depth,
        ) is Some,
    ensures
        outcome(m, methods, d.types, d.parts[0], d.parts[0].body.entry, locals, slots, state, n)
            matches Some((x, _)) && x == (outcome(
            m,
            Map::empty(),
            d.types,
            d.function,
            d.function.body.entry,
            locals,
            slots,
            state,
            depth,
        )->0).0,
{
    let entry = d.function.body.entry;
    first_chunk_starts_at_the_entry(d.plan, d.function, d.types, d.components);
    assert(d.plan.chunks[0].contains(entry));
    assert(is_chunk_function(d.function, d.plan, d.naming, 0, d.parts[0]));
    assert(start_label(d.plan, 0) == entry);
    assert(agree_on(d.function.body, d.types, entry, locals, locals));
    chunk_goes_on(m, d, methods, 0, entry, locals, locals, slots, slots, state, depth)
}

} // verus!
