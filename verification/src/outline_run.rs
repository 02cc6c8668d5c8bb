//! What the methods of an outlined function do: the same as the function.
use crate::carrier::RESTORE_PREFIX;
use crate::chunks::is_marker;
use crate::components::label_edge;
use crate::flow::{
    continues_to, defines, definition_of, operands_of, successors_are_the_targets, successors_of,
    targets_of, transfers, unwind_exception, unwind_only, uses_of, variables_in, VariableModel,
    UNWIND_EXCEPTION_LOCAL,
};
use crate::liveness::{carried, defined, exposed, live_on_entry, liveness_equation, reads_at};
use crate::oomir::{
    has_value, CodeBlockModel, Constant, ConstantModel, FunctionModel, InstructionModel, Operand,
    OperandModel, Text, TypeModel,
};
use crate::outline::{redirected, rewritten, PARAMETER_PREFIX};
use vstd::prelude::*;
use vstd::string::*;

verus! {

/// What the variables of a method hold; values are named by numbers.
pub type Locals = spec_fn(VariableModel) -> int;

/// What an instruction or a method comes to: a value or an exception, and the state behind it.
pub enum Outcome {
    Gives { value: int, state: int },
    Throws { exception: int, state: int },
}

/// What instructions do, as far as the division of a method into several does not depend on it. The
/// state of everything but the variables is named by a number too.
pub struct Meaning {
    /// The value of a constant.
    pub constant: spec_fn(ConstantModel) -> int,
    /// Whether a value holds as a condition.
    pub holds: spec_fn(int) -> bool,
    /// What an instruction comes to, from the variables that it reads and the state in front of it.
    pub effect: spec_fn(InstructionModel, Locals, int) -> Outcome,
    /// The value of a variable that holds nothing.
    pub blank: int,
}

/// What the arrays of a carrier hold, by the name of the array and the position in it. An array is
/// handed from method to method, and its name with it.
pub type Slots = spec_fn(Text, int) -> int;

/// The methods that are called by class and name.
pub type MethodTable = Map<(Text, Text), FunctionModel>;

/// How the run of a block ends: at another block, or with what the method comes to. A block without
/// an end has no such run.
pub enum Exit {
    Goes { label: Text, locals: Locals, slots: Slots, state: int },
    Ends { outcome: Outcome, slots: Slots },
    Stops,
}

/// The value of an operand.
pub open spec fn operand_value(m: Meaning, operand: OperandModel, locals: Locals) -> int {
    match operand {
        Operand::Constant(constant) => (m.constant)(constant),
        Operand::Variable { name, ty } => if has_value(ty) {
            locals((name, ty))
        } else {
            m.blank
        },
    }
}

/// The variables that an instruction reads, and nothing of the others.
pub open spec fn seen(
    m: Meaning,
    types: Map<Text, Seq<TypeModel>>,
    instruction: InstructionModel,
    locals: Locals,
) -> Locals {
    |v: VariableModel|
        if uses_of(instruction, types).contains(v) {
            locals(v)
        } else {
            m.blank
        }
}

/// The variables with a value for one of them: a name holds a value of one type only.
pub open spec fn holding(m: Meaning, locals: Locals, d: VariableModel, value: int) -> Locals {
    |v: VariableModel|
        if v == d {
            value
        } else if v.0 == d.0 {
            m.blank
        } else {
            locals(v)
        }
}

/// The variables behind an instruction with a result.
pub open spec fn behind(
    m: Meaning,
    instruction: InstructionModel,
    locals: Locals,
    value: int,
) -> Locals {
    match definition_of(instruction) {
        Some(d) => if has_value(d.1) {
            holding(m, locals, d, value)
        } else {
            locals
        },
        None => locals,
    }
}

/// Where an exception leads: to the handler, which finds it in a variable, or out of the method.
pub open spec fn raised(
    m: Meaning,
    handler: Option<Text>,
    locals: Locals,
    slots: Slots,
    exception: int,
    state: int,
) -> Exit {
    match handler {
        Some(label) => Exit::Goes {
            label,
            locals: holding(m, locals, unwind_exception(), exception),
            slots,
            state,
        },
        None => Exit::Ends { outcome: Outcome::Throws { exception, state }, slots },
    }
}

/// Whether a name is that of an array of a carrier.
pub open spec fn is_carrier_name(name: Text) -> bool {
    "$outlined$carrier$"@.is_prefix_of(name)
}

/// Whether an instruction handles a carrier: it makes, fills or reads one of its arrays, or
/// restores
/// a variable.
pub open spec fn handles_carrier(instruction: InstructionModel) -> bool {
    match instruction {
        InstructionModel::NewArray { dest, .. } => is_carrier_name(dest),
        InstructionModel::ArrayStore { array, .. } => is_carrier_name(array),
        InstructionModel::ArrayGet { array, .. } => array matches Operand::Variable { name, .. }
            && is_carrier_name(name),
        InstructionModel::Cast { dest, .. } => RESTORE_PREFIX@.is_prefix_of(dest),
        _ => false,
    }
}

/// The position that an operand stands for.
pub open spec fn position_of(index: OperandModel) -> int {
    match index {
        Operand::Constant(Constant::I32(i)) => i as int,
        _ => -1,
    }
}

/// The variables behind an instruction that handles a carrier: what is taken out of a slot is what
/// was put into it, and restoring a variable leaves the others alone.
pub open spec fn taken(
    m: Meaning,
    instruction: InstructionModel,
    locals: Locals,
    slots: Slots,
) -> Locals {
    match instruction {
        InstructionModel::ArrayGet { array: Operand::Variable { name, .. }, index, .. } => behind(
            m,
            instruction,
            locals,
            slots(name, position_of(index)),
        ),
        InstructionModel::Cast { op, ty, dest } => {
            let restored = (dest.skip(RESTORE_PREFIX@.len() as int), ty);
            let value = operand_value(m, op, locals);
            |v: VariableModel|
                if v == restored {
                    value
                } else {
                    locals(v)
                }
        },
        _ => behind(m, instruction, locals, m.blank),
    }
}

/// The slots behind an instruction that handles a carrier.
pub open spec fn put(
    m: Meaning,
    instruction: InstructionModel,
    locals: Locals,
    slots: Slots,
) -> Slots {
    match instruction {
        InstructionModel::NewArray { dest, .. } => |name: Text, i: int|
            if name == dest {
                m.blank
            } else {
                slots(name, i)
            },
        InstructionModel::ArrayStore { array, index, value, .. } => {
            let slots_behind = operand_value(m, value, locals);
            |name: Text, i: int|
                if name == array && i == position_of(index) {
                    slots_behind
                } else {
                    slots(name, i)
                }
        },
        _ => slots,
    }
}

/// The label that a switch goes to: that of the first constant, from one on, that has the value.
pub open spec fn chosen(
    m: Meaning,
    targets: Seq<(ConstantModel, Text)>,
    otherwise: Text,
    value: int,
    from: nat,
) -> Text
    decreases targets.len() - from,
{
    if from >= targets.len() {
        otherwise
    } else if (m.constant)(targets[from as int].0) == value {
        targets[from as int].1
    } else {
        chosen(m, targets, otherwise, value, from + 1)
    }
}

/// The variables of a method that is entered: each parameter stands for the variable behind its
/// prefix.
pub open spec fn locals_on_entry(m: Meaning, function: FunctionModel, values: Seq<int>) -> Locals {
    |v: VariableModel|
        {
            let parameter = (PARAMETER_PREFIX@ + v.0, v.1);
            if function.signature.params.contains(parameter) {
                values[function.signature.params.index_of(parameter)]
            } else {
                m.blank
            }
        }
}

/// Whether an instruction ends its block.
pub open spec fn ends(instruction: InstructionModel) -> bool {
    ||| instruction is Jump
    ||| instruction is Branch
    ||| instruction is Switch
    ||| instruction is Return
    ||| instruction is ThrowNewWithMessage
    ||| instruction is Rethrow
}

/// How a block runs from one of its instructions on, under a handler, with calls that are nested at
/// most so deep.
pub open spec fn exit_of(
    m: Meaning,
    methods: MethodTable,
    types: Map<Text, Seq<TypeModel>>,
    instructions: Seq<InstructionModel>,
    at: nat,
    handler: Option<Text>,
    locals: Locals,
    slots: Slots,
    state: int,
    depth: nat,
) -> Exit
    decreases depth, instructions.len() - at,
{
    if at >= instructions.len() {
        Exit::Stops
    } else {
        let instruction = instructions[at as int];
        match instruction {
            InstructionModel::Jump { target } => Exit::Goes { label: target, locals, slots, state },
            InstructionModel::Branch { condition, true_block, false_block } => Exit::Goes {
                label: if (m.holds)(operand_value(m, condition, locals)) {
                    true_block
                } else {
                    false_block
                },
                locals,
                slots,
                state,
            },
            InstructionModel::Switch { discr, targets, otherwise } => Exit::Goes {
                label: chosen(m, targets, otherwise, operand_value(m, discr, locals), 0),
                locals,
                slots,
                state,
            },
            InstructionModel::Return { operand } => Exit::Ends {
                outcome: Outcome::Gives {
                    value: match operand {
                        Some(value) => operand_value(m, value, locals),
                        None => m.blank,
                    },
                    state,
                },
                slots,
            },
            InstructionModel::ThrowNewWithMessage { .. } => match (m.effect)(
                instruction,
                seen(m, types, instruction, locals),
                state,
            ) {
                Outcome::Gives { .. } => Exit::Stops,
                Outcome::Throws { exception, state } => raised(
                    m,
                    handler,
                    locals,
                    slots,
                    exception,
                    state,
                ),
            },
            InstructionModel::Rethrow => raised(
                m,
                handler,
                locals,
                slots,
                locals(unwind_exception()),
                state,
            ),
            _ => if is_marker(instruction) {
                exit_of(
                    m,
                    methods,
                    types,
                    instructions,
                    at + 1,
                    handler_behind(instruction, handler),
                    locals,
                    slots,
                    state,
                    depth,
                )
            } else if handles_carrier(instruction) {
                exit_of(
                    m,
                    methods,
                    types,
                    instructions,
                    at + 1,
                    handler,
                    taken(m, instruction, locals, slots),
                    put(m, instruction, locals, slots),
                    state,
                    depth,
                )
            } else {
                let reached = match callee(methods, instruction) {
                    Some((function, args)) => {
                        let values = args.map_values(|a: OperandModel| operand_value(m, a, locals));
                        outcome(
                            m,
                            methods,
                            types,
                            function,
                            function.body.entry,
                            locals_on_entry(m, function, values),
                            slots,
                            state,
                            depth,
                        )
                    },
                    None => Some(
                        (
                            (m.effect)(instruction, seen(m, types, instruction, locals), state),
                            slots,
                        ),
                    ),
                };
                match reached {
                    Some((Outcome::Gives { value, state }, slots)) => exit_of(
                        m,
                        methods,
                        types,
                        instructions,
                        at + 1,
                        handler,
                        behind(m, instruction, locals, value),
                        slots,
                        state,
                        depth,
                    ),
                    Some((Outcome::Throws { exception, state }, slots)) => raised(
                        m,
                        handler,
                        locals,
                        slots,
                        exception,
                        state,
                    ),
                    None => Exit::Stops,
                }
            },
        }
    }
}

/// The handler behind an instruction: one that starts a region has its own, and the end of a region
/// has none.
pub open spec fn handler_behind(
    instruction: InstructionModel,
    handler: Option<Text>,
) -> Option<Text> {
    match instruction {
        InstructionModel::UnwindStart { target } => Some(target),
        InstructionModel::UnwindEnd => None,
        _ => handler,
    }
}

/// The method among the given ones that an instruction calls, with its arguments.
pub open spec fn callee(
    methods: MethodTable,
    instruction: InstructionModel,
) -> Option<(FunctionModel, Seq<OperandModel>)> {
    match instruction {
        InstructionModel::InvokeStatic { class_name, method_name, args,
            .. } => if methods.contains_key(
            (class_name, method_name),
        ) {
            Some((methods[(class_name, method_name)], args))
        } else {
            None
        },
        _ => None,
    }
}

/// What a method comes to from a block on, if it does after at most so many blocks and calls one
/// inside the other.
pub open spec fn outcome(
    m: Meaning,
    methods: MethodTable,
    types: Map<Text, Seq<TypeModel>>,
    function: FunctionModel,
    label: Text,
    locals: Locals,
    slots: Slots,
    state: int,
    depth: nat,
) -> Option<(Outcome, Slots)>
    decreases depth, 0int,
{
    if depth == 0 || !function.body.basic_blocks.contains_key(label) {
        None
    } else {
        match exit_of(
            m,
            methods,
            types,
            function.body.basic_blocks[label].instructions,
            0,
            None,
            locals,
            slots,
            state,
            (depth - 1) as nat,
        ) {
            Exit::Goes { label, locals, slots, state } => outcome(
                m,
                methods,
                types,
                function,
                label,
                locals,
                slots,
                state,
                (depth - 1) as nat,
            ),
            Exit::Ends { outcome, slots } => Some((given_back(m, function, outcome), slots)),
            Exit::Stops => None,
        }
    }
}

/// What a method comes to: one without result gives nothing.
pub open spec fn given_back(m: Meaning, function: FunctionModel, outcome: Outcome) -> Outcome {
    match outcome {
        Outcome::Gives { value, state } => Outcome::Gives {
            value: if has_value(function.signature.ret) {
                value
            } else {
                m.blank
            },
            state,
        },
        thrown => thrown,
    }
}

/// Whether only the last instruction ends a block.
pub open spec fn is_regular(instructions: Seq<InstructionModel>) -> bool {
    forall|i: int| 0 <= i < instructions.len() - 1 ==> !ends(#[trigger] instructions[i])
}

/// Whether instructions call none of the given methods.
pub open spec fn calls_none_of(instructions: Seq<InstructionModel>, methods: MethodTable) -> bool {
    forall|i: int|
        0 <= i < instructions.len() ==> (#[trigger] callee(methods, instructions[i])) is None
}

/// Whether no instruction handles a carrier.
pub open spec fn uses_no_carrier(instructions: Seq<InstructionModel>) -> bool {
    forall|i: int| 0 <= i < instructions.len() ==> !handles_carrier(#[trigger] instructions[i])
}

/// A block that calls none of the methods runs alike however deep calls may be nested.
pub proof fn depth_does_not_matter(
    m: Meaning,
    methods: MethodTable,
    types: Map<Text, Seq<TypeModel>>,
    instructions: Seq<InstructionModel>,
    at: nat,
    handler: Option<Text>,
    locals: Locals,
    slots: Slots,
    state: int,
    a: nat,
    b: nat,
)
    requires
        calls_none_of(instructions, methods),
    ensures
        exit_of(m, methods, types, instructions, at, handler, locals, slots, state, a) == exit_of(
            m,
            methods,
            types,
            instructions,
            at,
            handler,
            locals,
            slots,
            state,
            b,
        ),
    decreases instructions.len() - at,
{
    if at < instructions.len() {
        let instruction = instructions[at as int];
        assert(callee(methods, instructions[at as int]) is None);
        if !ends(instruction) {
            if is_marker(instruction) {
                let next = handler_behind(instruction, handler);
                depth_does_not_matter(
                    m,
                    methods,
                    types,
                    instructions,
                    at + 1,
                    next,
                    locals,
                    slots,
                    state,
                    a,
                    b,
                );
            } else if handles_carrier(instruction) {
                depth_does_not_matter(
                    m,
                    methods,
                    types,
                    instructions,
                    at + 1,
                    handler,
                    taken(m, instruction, locals, slots),
                    put(m, instruction, locals, slots),
                    state,
                    a,
                    b,
                );
            } else {
                match (m.effect)(instruction, seen(m, types, instruction, locals), state) {
                    Outcome::Gives { value, state } => {
                        depth_does_not_matter(
                            m,
                            methods,
                            types,
                            instructions,
                            at + 1,
                            handler,
                            behind(m, instruction, locals, value),
                            slots,
                            state,
                            a,
                            b,
                        );
                    },
                    _ => {},
                }
            }
        }
    }
}

/// A switch with other labels goes to the other label in place of the one that it went to.
proof fn choice_is_redirected(
    m: Meaning,
    targets: Seq<(ConstantModel, Text)>,
    otherwise: Text,
    value: int,
    from: nat,
    replacements: Map<Text, Text>,
)
    ensures
        chosen(
            m,
            targets.map_values(|t: (ConstantModel, Text)| (t.0, redirected(replacements, t.1))),
            redirected(replacements, otherwise),
            value,
            from,
        ) == redirected(replacements, chosen(m, targets, otherwise, value, from)),
        chosen(m, targets, otherwise, value, from) == otherwise || exists|i: int|
            0 <= i < targets.len() && #[trigger] targets[i].1 == chosen(
                m,
                targets,
                otherwise,
                value,
                from,
            ),
    decreases targets.len() - from,
{
    if from < targets.len() {
        if (m.constant)(targets[from as int].0) == value {
            assert(targets[from as int].1 == chosen(m, targets, otherwise, value, from));
        } else {
            choice_is_redirected(m, targets, otherwise, value, from + 1, replacements);
        }
    }
}

/// Whether one of the first instructions defines a name.
pub open spec fn defined_before(instructions: Seq<InstructionModel>, at: int, name: Text) -> bool {
    exists|j: int| 0 <= j < at && #[trigger] defines(instructions[j], name)
}

/// Whether two runs of a block agree in front of one of its instructions: on what is live on entry
/// to the block, and on what has been defined since.
pub open spec fn agree_at(
    body: CodeBlockModel,
    types: Map<Text, Seq<TypeModel>>,
    label: Text,
    at: int,
    one: Locals,
    other: Locals,
) -> bool {
    forall|v: VariableModel|
        live_on_entry(body, types, label, v) || defined_before(
            body.basic_blocks[label].instructions,
            at,
            v.0,
        ) ==> #[trigger] one(v) == other(v)
}

/// Whether two runs agree on what is live on entry to a block.
pub open spec fn agree_on(
    body: CodeBlockModel,
    types: Map<Text, Seq<TypeModel>>,
    label: Text,
    one: Locals,
    other: Locals,
) -> bool {
    forall|v: VariableModel| live_on_entry(body, types, label, v) ==> #[trigger] one(v) == other(v)
}

/// What an instruction reads is live on entry to its block, or has been defined in the block.
proof fn reads_agree(
    body: CodeBlockModel,
    types: Map<Text, Seq<TypeModel>>,
    label: Text,
    at: int,
    one: Locals,
    other: Locals,
    v: VariableModel,
)
    requires
        0 <= at < body.basic_blocks[label].instructions.len(),
        agree_at(body, types, label, at, one, other),
        uses_of(body.basic_blocks[label].instructions[at], types).contains(v),
    ensures
        one(v) == other(v),
{
    let instructions = body.basic_blocks[label].instructions;
    if !defined_before(instructions, at, v.0) {
        assert(reads_at(instructions, types, v, at));
        assert(exposed(instructions, types, v));
        liveness_equation(body, types, label, v);
        assert(live_on_entry(body, types, label, v));
    }
    assert(one(v) == other(v));
}

/// A variable among the operands of an instruction is one that it reads.
proof fn operand_is_read(
    instruction: InstructionModel,
    types: Map<Text, Seq<TypeModel>>,
    name: Text,
    ty: TypeModel,
)
    requires
        has_value(ty),
        operands_of(instruction) == seq![
            Operand::Variable { name, ty },
        ],
    ensures
        uses_of(instruction, types).contains((name, ty)),
{
    let operands = operands_of(instruction);
    reveal_with_fuel(variables_in, 2);
    assert(operands.drop_last() =~= Seq::<OperandModel>::empty());
    assert(operands.last() == operands[0]);
    assert(variables_in(operands) =~= seq![(name, ty)]);
    assert(variables_in(operands)[0] == (name, ty));
    let uses = uses_of(instruction, types);
    assert(uses[0] == (name, ty));
}

/// The single operand of an instruction has the same value in two runs that agree.
proof fn operand_agrees(
    m: Meaning,
    body: CodeBlockModel,
    types: Map<Text, Seq<TypeModel>>,
    label: Text,
    at: int,
    one: Locals,
    other: Locals,
    operand: OperandModel,
)
    requires
        0 <= at < body.basic_blocks[label].instructions.len(),
        agree_at(body, types, label, at, one, other),
        operands_of(body.basic_blocks[label].instructions[at]) == seq![operand],
    ensures
        operand_value(m, operand, one) == operand_value(m, operand, other),
{
    match operand {
        Operand::Variable { name, ty } => {
            if has_value(ty) {
                operand_is_read(body.basic_blocks[label].instructions[at], types, name, ty);
                reads_agree(body, types, label, at, one, other, (name, ty));
            }
        },
        _ => {},
    }
}

/// Behind the end of a block, two runs that agreed in it agree on what is live where they go.
proof fn end_agrees(
    body: CodeBlockModel,
    types: Map<Text, Seq<TypeModel>>,
    label: Text,
    at: int,
    one: Locals,
    other: Locals,
    target: Text,
)
    requires
        at == body.basic_blocks[label].instructions.len() - 1,
        at >= 0,
        agree_at(body, types, label, at, one, other),
        continues_to(body.basic_blocks[label].instructions[at], target),
        definition_of(body.basic_blocks[label].instructions[at]) is None,
        body.basic_blocks.contains_key(label),
    ensures
        agree_on(body, types, target, one, other),
        label_edge(body, label, target),
{
    let instructions = body.basic_blocks[label].instructions;
    successors_are_the_targets(instructions);
    assert(targets_of(instructions[at]).contains(target));
    assert(transfers(instructions, target));
    assert(successors_of(instructions).contains(target));
    assert(continues_to(instructions[at], target));
    assert(!unwind_only(instructions, target));
    assert forall|v: VariableModel| live_on_entry(body, types, target, v) implies #[trigger] one(v)
        == other(v) by {
        liveness_equation(body, types, label, v);
        assert(carried(instructions, target, v));
        if defined(instructions, v.0) {
            let k = choose|k: int|
                0 <= k < instructions.len() && #[trigger] defines(instructions[k], v.0);
            assert(k < at);
            assert(defined_before(instructions, at, v.0));
        } else {
            assert(live_on_entry(body, types, label, v));
        }
    }
}

/// Whether two runs end alike: at the same label up to the one that stands in its place, agreeing
/// on
/// what is live there, or with the same result. The other run leaves the given slots as they are.
pub open spec fn end_alike(
    body: CodeBlockModel,
    types: Map<Text, Seq<TypeModel>>,
    label: Text,
    replacements: Map<Text, Text>,
    slots: Slots,
    one: Exit,
    other: Exit,
) -> bool {
    match (one, other) {
        (
            Exit::Goes { label: a, locals: e, state: s, .. },
            Exit::Goes { label: b, locals: f, state: t, slots: left },
        ) => {
            &&& b == redirected(replacements, a)
            &&& s == t
            &&& left == slots
            &&& label_edge(body, label, a)
            &&& agree_on(body, types, a, e, f)
        },
        (Exit::Ends { outcome: x, .. }, Exit::Ends { outcome: y, .. }) => x == y,
        (Exit::Stops, Exit::Stops) => true,
        _ => false,
    }
}

/// The handler in front of one of the instructions of a block.
pub open spec fn handler_at(instructions: Seq<InstructionModel>, at: nat) -> Option<Text>
    decreases at,
{
    if at == 0 {
        None
    } else {
        handler_behind(instructions[at - 1], handler_at(instructions, (at - 1) as nat))
    }
}

/// Whether the handlers of a block find what they need wherever something can be thrown: what is
/// live on entry to a handler is live on entry to the block, or has been defined in it. The
/// exception itself comes with the handler.
pub open spec fn handlers_are_served(
    body: CodeBlockModel,
    types: Map<Text, Seq<TypeModel>>,
    label: Text,
) -> bool {
    let instructions = body.basic_blocks[label].instructions;
    forall|at: nat, handler: Text, v: VariableModel|
        at < instructions.len() && !is_marker(instructions[at as int]) && #[trigger] handler_at(
            instructions,
            at,
        ) == Some(handler) && v.0 != UNWIND_EXCEPTION_LOCAL@ && #[trigger] live_on_entry(
            body,
            types,
            handler,
            v,
        ) ==> live_on_entry(body, types, label, v) || defined_before(
            instructions,
            at as int,
            v.0,
        )
}

/// The handler of an instruction is one that its block can transfer to.
proof fn handler_is_a_successor(instructions: Seq<InstructionModel>, at: nat)
    requires
        at <= instructions.len(),
    ensures
        handler_at(instructions, at) matches Some(handler) ==> successors_of(instructions).contains(
            handler,
        ),
    decreases at,
{
    if at > 0 {
        handler_is_a_successor(instructions, (at - 1) as nat);
        match instructions[at - 1] {
            InstructionModel::UnwindStart { target } => {
                successors_are_the_targets(instructions);
                assert(targets_of(instructions[at - 1])[0] == target);
                assert(targets_of(instructions[at - 1]).contains(target));
                assert(transfers(instructions, target));
            },
            _ => {},
        }
    }
}

/// What an instruction reads is the same in two runs that agree.
proof fn reading_agrees(
    m: Meaning,
    body: CodeBlockModel,
    types: Map<Text, Seq<TypeModel>>,
    label: Text,
    at: int,
    one: Locals,
    other: Locals,
)
    requires
        0 <= at < body.basic_blocks[label].instructions.len(),
        agree_at(body, types, label, at, one, other),
    ensures
        ({
            let instruction = body.basic_blocks[label].instructions[at];
            seen(m, types, instruction, one) == seen(m, types, instruction, other)
        }),
{
    let instruction = body.basic_blocks[label].instructions[at];
    let x = seen(m, types, instruction, one);
    let y = seen(m, types, instruction, other);
    assert forall|v: VariableModel| #[trigger] x(v) == y(v) by {
        if uses_of(instruction, types).contains(v) {
            reads_agree(body, types, label, at, one, other, v);
        }
    }
    assert(x =~= y);
}

/// Two runs that agree reach the handler alike.
proof fn raising_agrees(
    m: Meaning,
    body: CodeBlockModel,
    types: Map<Text, Seq<TypeModel>>,
    label: Text,
    replacements: Map<Text, Text>,
    at: nat,
    one: Locals,
    other: Locals,
    first: Slots,
    slots: Slots,
    exception: int,
    state: int,
)
    requires
        body.basic_blocks.contains_key(label),
        at < body.basic_blocks[label].instructions.len(),
        !is_marker(body.basic_blocks[label].instructions[at as int]),
        handlers_are_served(body, types, label),
        agree_at(body, types, label, at as int, one, other),
    ensures
        ({
            let handler = handler_at(body.basic_blocks[label].instructions, at);
            end_alike(
                body,
                types,
                label,
                replacements,
                slots,
                raised(m, handler, one, first, exception, state),
                raised(
                    m,
                    redirected_handler(replacements, handler),
                    other,
                    slots,
                    exception,
                    state,
                ),
            )
        }),
{
    let instructions = body.basic_blocks[label].instructions;
    handler_is_a_successor(instructions, at);
    match handler_at(instructions, at) {
        Some(handler) => {
            let x = holding(m, one, unwind_exception(), exception);
            let y = holding(m, other, unwind_exception(), exception);
            assert forall|v: VariableModel| live_on_entry(
                body,
                types,
                handler,
                v,
            ) implies #[trigger] x(
                v,
            ) == y(v) by {
                if v.0 != UNWIND_EXCEPTION_LOCAL@ {
                    assert(one(v) == other(v));
                }
            }
            assert(agree_on(body, types, handler, x, y));
        },
        None => {},
    }
}

/// A handler, or what stands in its place.
pub open spec fn redirected_handler(
    replacements: Map<Text, Text>,
    handler: Option<Text>,
) -> Option<Text> {
    match handler {
        Some(label) => Some(redirected(replacements, label)),
        None => None,
    }
}

/// A block and the same block with other labels end alike if the runs agree on what is live.
pub proof fn blocks_end_alike(
    m: Meaning,
    methods: MethodTable,
    body: CodeBlockModel,
    types: Map<Text, Seq<TypeModel>>,
    label: Text,
    replacements: Map<Text, Text>,
    at: nat,
    one: Locals,
    other: Locals,
    first: Slots,
    slots: Slots,
    state: int,
    a: nat,
    b: nat,
)
    requires
        body.basic_blocks.contains_key(label),
        is_regular(body.basic_blocks[label].instructions),
        handlers_are_served(body, types, label),
        calls_none_of(body.basic_blocks[label].instructions, methods),
        uses_no_carrier(body.basic_blocks[label].instructions),
        agree_at(body, types, label, at as int, one, other),
    ensures
        ({
            let instructions = body.basic_blocks[label].instructions;
            let handler = handler_at(instructions, at);
            end_alike(
                body,
                types,
                label,
                replacements,
                slots,
                exit_of(m, Map::empty(), types, instructions, at, handler, one, first, state, a),
                exit_of(
                    m,
                    methods,
                    types,
                    instructions.map_values(|i: InstructionModel| rewritten(i, replacements)),
                    at,
                    redirected_handler(replacements, handler),
                    other,
                    slots,
                    state,
                    b,
                ),
            )
        }),
    decreases body.basic_blocks[label].instructions.len() - at,
{
    let instructions = body.basic_blocks[label].instructions;
    let changed = instructions.map_values(|i: InstructionModel| rewritten(i, replacements));
    let handler = handler_at(instructions, at);
    if at < instructions.len() {
        let instruction = instructions[at as int];
        assert(changed[at as int] == rewritten(instruction, replacements));
        assert(callee(methods, instructions[at as int]) is None);
        assert(callee(Map::empty(), instruction) is None);
        assert(!handles_carrier(instructions[at as int]));
        assert(handler_at(instructions, at + 1) == handler_behind(instruction, handler));
        reading_agrees(m, body, types, label, at as int, one, other);
        let read = seen(m, types, instruction, one);
        if ends(instruction) {
            assert(at == instructions.len() - 1);
            match instruction {
                InstructionModel::Jump { target } => {
                    assert(targets_of(instruction)[0] == target);
                    end_agrees(body, types, label, at as int, one, other, target);
                },
                InstructionModel::Branch { condition, true_block, false_block } => {
                    operand_agrees(m, body, types, label, at as int, one, other, condition);
                    assert(targets_of(instruction)[0] == true_block);
                    assert(targets_of(instruction)[1] == false_block);
                    end_agrees(body, types, label, at as int, one, other, true_block);
                    end_agrees(body, types, label, at as int, one, other, false_block);
                },
                InstructionModel::Switch { discr, targets, otherwise } => {
                    operand_agrees(m, body, types, label, at as int, one, other, discr);
                    let value = operand_value(m, discr, one);
                    choice_is_redirected(m, targets, otherwise, value, 0, replacements);
                    let target = chosen(m, targets, otherwise, value, 0);
                    let all = targets_of(instruction);
                    if target == otherwise {
                        assert(all[targets.len() as int] == otherwise);
                    } else {
                        let i = choose|i: int|
                            0 <= i < targets.len() && #[trigger] targets[i].1 == target;
                        assert(all[i] == target);
                    }
                    assert(all.contains(target));
                    end_agrees(body, types, label, at as int, one, other, target);
                },
                InstructionModel::Return { operand } => {
                    match operand {
                        Some(value) => {
                            operand_agrees(m, body, types, label, at as int, one, other, value);
                        },
                        None => {},
                    }
                },
                InstructionModel::ThrowNewWithMessage { .. } => {
                    match (m.effect)(instruction, read, state) {
                        Outcome::Throws { exception, state } => {
                            raising_agrees(
                                m,
                                body,
                                types,
                                label,
                                replacements,
                                at,
                                one,
                                other,
                                first,
                                slots,
                                exception,
                                state,
                            );
                        },
                        _ => {},
                    }
                },
                _ => {
                    let v = unwind_exception();
                    assert(uses_of(instruction, types).last() == v);
                    reads_agree(body, types, label, at as int, one, other, v);
                    raising_agrees(
                        m,
                        body,
                        types,
                        label,
                        replacements,
                        at,
                        one,
                        other,
                        first,
                        slots,
                        one(v),
                        state,
                    );
                },
            }
        } else if is_marker(instruction) {
            assert(is_marker(changed[at as int]));
            assert(definition_of(instruction) is None);
            assert(agree_at(body, types, label, at as int + 1, one, other)) by {
                step_agrees(m, body, types, label, at as int, one, other, 0);
            }
            blocks_end_alike(
                m,
                methods,
                body,
                types,
                label,
                replacements,
                at + 1,
                one,
                other,
                first,
                slots,
                state,
                a,
                b,
            );
        } else {
            assert(changed[at as int] == instruction);
            match (m.effect)(instruction, read, state) {
                Outcome::Gives { value, state } => {
                    step_agrees(m, body, types, label, at as int, one, other, value);
                    blocks_end_alike(
                        m,
                        methods,
                        body,
                        types,
                        label,
                        replacements,
                        at + 1,
                        behind(m, instruction, one, value),
                        behind(m, instruction, other, value),
                        first,
                        slots,
                        state,
                        a,
                        b,
                    );
                },
                Outcome::Throws { exception, state } => {
                    raising_agrees(
                        m,
                        body,
                        types,
                        label,
                        replacements,
                        at,
                        one,
                        other,
                        first,
                        slots,
                        exception,
                        state,
                    );
                },
            }
        }
    }
}

/// Two runs that agree in front of an instruction agree behind it.
proof fn step_agrees(
    m: Meaning,
    body: CodeBlockModel,
    types: Map<Text, Seq<TypeModel>>,
    label: Text,
    at: int,
    one: Locals,
    other: Locals,
    value: int,
)
    requires
        0 <= at < body.basic_blocks[label].instructions.len(),
        agree_at(body, types, label, at, one, other),
    ensures
        ({
            let instruction = body.basic_blocks[label].instructions[at];
            agree_at(
                body,
                types,
                label,
                at + 1,
                behind(m, instruction, one, value),
                behind(m, instruction, other, value),
            )
        }),
{
    let instructions = body.basic_blocks[label].instructions;
    let instruction = instructions[at];
    let x = behind(m, instruction, one, value);
    let y = behind(m, instruction, other, value);
    assert forall|v: VariableModel|
        live_on_entry(body, types, label, v) || defined_before(
            instructions,
            at + 1,
            v.0,
        ) implies #[trigger] x(v) == y(v) by {
        if !defines(instruction, v.0) {
            if defined_before(instructions, at + 1, v.0) {
                let j = choose|j: int|
                    0 <= j < at + 1 && #[trigger] defines(instructions[j], v.0);
                assert(j < at);
                assert(defined_before(instructions, at, v.0));
            }
            assert(one(v) == other(v));
        }
    }
}

} // verus!
