//! What the variables that an instruction reads and defines have to do with what it does.
use crate::execution::{Machine, Value, full_value, stepped, value_assigned, value_of};
use crate::flow::{
    definition_of, definitions_of, element_of, operands_of, targets_of, unwind_exception, uses_of,
    variables_in,
};
use crate::oomir::{
    InstructionModel, Operand, OperandModel, Text, Type, TypeModel, has_value, operand_type,
};
use vstd::prelude::*;
use vstd::string::*;

verus! {

/// The variable that an instruction writes.
pub open spec fn written_by(instruction: InstructionModel) -> Option<Text> {
    match instruction {
        InstructionModel::Binary { dest, .. } => Some(dest),
        InstructionModel::Compare { dest, .. } => Some(dest),
        InstructionModel::Not { dest, .. } => Some(dest),
        InstructionModel::Neg { dest, .. } => Some(dest),
        InstructionModel::Move { dest, .. } => Some(dest),
        InstructionModel::CallIndirect { dest, .. } => dest,
        InstructionModel::InvokeInterface { dest, .. } => dest,
        InstructionModel::InvokeVirtual { dest, .. } => dest,
        InstructionModel::InvokeStatic { dest, .. } => dest,
        InstructionModel::InvokeRustStatic { dest, .. } => dest,
        InstructionModel::CreateFunctionPointer { dest, .. } => Some(dest),
        InstructionModel::NewArray { dest, .. } => Some(dest),
        InstructionModel::ArrayGet { dest, .. } => Some(dest),
        InstructionModel::Length { dest, .. } => Some(dest),
        InstructionModel::ConstructObject { dest, .. } => Some(dest),
        InstructionModel::GetField { dest, .. } => Some(dest),
        InstructionModel::Cast { dest, .. } => Some(dest),
        _ => None,
    }
}

/// The variable that an instruction defines is the one that it writes, if the type of that is
/// known: the element of what is no array has none.
pub proof fn definitions_are_written(instruction: InstructionModel)
    ensures
        definition_of(instruction) matches Some(variable) ==> written_by(instruction) == Some(
            variable.0,
        ),
        written_by(instruction) is Some && !(instruction matches InstructionModel::ArrayGet {
            array,
            ..
        } && element_of(operand_type(array)) is None) ==> definition_of(instruction) is Some,
        definitions_of(instruction).len() <= 1,
        forall|i: int|
            0 <= i < definitions_of(instruction).len() ==> definition_of(instruction) == Some(
                #[trigger] definitions_of(instruction)[i],
            ) && has_value(definitions_of(instruction)[i].1),
        definition_of(instruction) matches Some(variable) ==> (has_value(variable.1)
            ==> definitions_of(instruction) == seq![variable]),
{
}

/// Running an instruction changes no variable but the one that it defines, and no array but the one
/// that it makes or stores into.
pub proof fn steps_change_only_what_they_write(m: Machine, instruction: InstructionModel)
    requires
        stepped(m, instruction) is Some,
    ensures
        ({
            let n = stepped(m, instruction)->0;
            let target = match instruction {
                InstructionModel::NewArray { dest, .. } => Some(dest),
                InstructionModel::ArrayStore { array, .. } => Some(array),
                _ => None,
            };
            &&& n.classes == m.classes
            &&& forall|name: Text|
                Some(name) != written_by(instruction) ==> (#[trigger] n.numbers.contains_key(name)
                    <==> m.numbers.contains_key(name)) && n.numbers[name] == m.numbers[name]
            &&& forall|name: Text|
                Some(name) != written_by(instruction) ==> (#[trigger] n.objects.contains_key(name)
                    <==> m.objects.contains_key(name)) && n.objects[name] == m.objects[name]
            &&& forall|name: Text|
                Some(name) != target ==> (#[trigger] n.arrays.contains_key(name)
                    <==> m.arrays.contains_key(name)) && n.arrays[name] == m.arrays[name]
            &&& forall|name: Text|
                Some(name) != target ==> (#[trigger] n.slots.contains_key(name)
                    <==> m.slots.contains_key(name)) && n.slots[name] == m.slots[name]
        }),
{
}

/// Whether two machines hold the same under a name.
pub open spec fn agree_on(a: Machine, b: Machine, name: Text) -> bool {
    &&& a.numbers.contains_key(name) == b.numbers.contains_key(name)
    &&& a.numbers[name] == b.numbers[name]
    &&& a.objects.contains_key(name) == b.objects.contains_key(name)
    &&& a.objects[name] == b.objects[name]
}

/// Whether two machines hold the same in all variables that an instruction reads, and in all
/// arrays.
pub open spec fn agree_for(a: Machine, b: Machine, instruction: InstructionModel) -> bool {
    &&& a.arrays == b.arrays
    &&& a.slots == b.slots
    &&& a.classes == b.classes
    &&& forall|i: int|
        #![trigger variables_in(operands_of(instruction))[i]]
        0 <= i < variables_in(operands_of(instruction)).len() ==> agree_on(
            a,
            b,
            variables_in(operands_of(instruction))[i].0,
        )
}

/// Whether each operand that is a variable has a value.
pub open spec fn operands_have_values(operands: Seq<OperandModel>) -> bool {
    forall|i: int|
        0 <= i < operands.len() ==> (#[trigger] operands[i] matches Operand::Variable { ty, .. }
            ==> has_value(ty))
}

proof fn variables_are_among(operands: Seq<OperandModel>, k: int)
    requires
        0 <= k < operands.len(),
        operands_have_values(operands),
    ensures
        operands[k] matches Operand::Variable { name, ty } ==> variables_in(operands).contains(
            (name, ty),
        ),
    decreases operands.len(),
{
    let front = operands.drop_last();
    let all = variables_in(operands);
    let before = variables_in(front);
    if k < front.len() {
        assert(front[k] == operands[k]);
        assert forall|i: int| 0 <= i < front.len() implies (#[trigger] front[i] matches
            Operand::Variable { ty, .. } ==> has_value(ty)) by {
            assert(operands[i] == front[i]);
        }
        variables_are_among(front, k);
        if let Operand::Variable { name, ty } = operands[k] {
            let j = before.index_of((name, ty));
            assert(all[j] == (name, ty));
        }
    } else {
        if let Operand::Variable { name, ty } = operands[k] {
            assert(operands.last() == operands[k]);
            assert(all.last() == (name, ty));
        }
    }
}

proof fn operands_stand_for_the_same(
    a: Machine,
    b: Machine,
    instruction: InstructionModel,
    k: int,
)
    requires
        agree_for(a, b, instruction),
        operands_have_values(operands_of(instruction)),
        0 <= k < operands_of(instruction).len(),
    ensures
        value_of(a, operands_of(instruction)[k]) == value_of(b, operands_of(instruction)[k]),
        full_value(a, operands_of(instruction)[k]) == full_value(b, operands_of(instruction)[k]),
{
    let operands = operands_of(instruction);
    variables_are_among(operands, k);
    if let Operand::Variable { name, ty } = operands[k] {
        let all = variables_in(operands);
        let j = all.index_of((name, ty));
        assert(all[j] == (name, ty));
        assert(agree_on(a, b, all[j].0));
    }
}

/// Whether an instruction runs in both of two machines or in neither, leaves the same arrays, and
/// writes the same value.
pub open spec fn does_the_same(a: Machine, b: Machine, instruction: InstructionModel) -> bool {
    match (stepped(a, instruction), stepped(b, instruction)) {
        (None, None) => true,
        (Some(after), Some(other)) => {
            &&& after.arrays == other.arrays
            &&& after.slots == other.slots
            &&& instruction is NewArray || instruction is ArrayStore || exists|value: Value|
                after == value_assigned(a, written_by(instruction)->0, value) && other
                    == #[trigger] value_assigned(b, written_by(instruction)->0, value)
        },
        _ => false,
    }
}

/// An instruction does the same in two machines that hold the same in the variables that it reads:
/// it runs in both or in neither, leaves the same arrays, and writes the same value.
pub proof fn steps_read_only_what_they_use(a: Machine, b: Machine, instruction: InstructionModel)
    requires
        agree_for(a, b, instruction),
        operands_have_values(operands_of(instruction)),
    ensures
        does_the_same(a, b, instruction),
{
    let operands = operands_of(instruction);
    assert forall|k: int| 0 <= k < operands.len() implies value_of(a, #[trigger] operands[k])
        == value_of(b, operands[k]) && full_value(a, operands[k]) == full_value(
        b,
        operands[k],
    ) by {
        operands_stand_for_the_same(a, b, instruction, k);
    }
    match instruction {
        InstructionModel::ConstructObject { dest, class_name, args } => {
            assert forall|i: int| 0 <= i < args.len() implies full_value(a, (#[trigger] args[i]).0)
                == full_value(b, args[i].0) by {
                assert(operands[i] == args[i].0);
            }
            let parts_a = Seq::new(args.len(), |i: int| full_value(a, args[i].0)->0);
            let parts_b = Seq::new(args.len(), |i: int| full_value(b, args[i].0)->0);
            assert(parts_a =~= parts_b);
            if stepped(a, instruction) is Some {
                let value = Value::Object { class_name, parts: parts_a };
                assert(stepped(a, instruction)->0 == value_assigned(a, dest, value));
                assert(stepped(b, instruction)->0 == value_assigned(
                    b,
                    written_by(instruction)->0,
                    value,
                ));
                assert(stepped(a, instruction)->0 == value_assigned(
                    a,
                    written_by(instruction)->0,
                    value,
                ));
                assert(value_assigned(a, dest, value).arrays == a.arrays);
                assert(value_assigned(b, dest, value).arrays == b.arrays);
            } else {
                assert(stepped(b, instruction) is None);
            }
            assert(does_the_same(a, b, instruction));
        },
        InstructionModel::Binary { op1, op2, .. } => {
            assert(operands[0] == op1 && operands[1] == op2);
            same_value_is_written(a, b, instruction);
        },
        InstructionModel::Cast { op, .. } => {
            assert(operands[0] == op);
            same_value_is_written(a, b, instruction);
        },
        InstructionModel::Move { src, .. } => {
            assert(operands[0] == src);
            same_value_is_written(a, b, instruction);
        },
        InstructionModel::NewArray { size, .. } => {
            assert(operands[0] == size);
            assert(does_the_same(a, b, instruction));
        },
        InstructionModel::ArrayStore { index, value, .. } => {
            assert(operands[0] == index && operands[1] == value);
            assert(does_the_same(a, b, instruction));
        },
        InstructionModel::ArrayGet { array, index, .. } => {
            assert(operands[0] == array && operands[1] == index);
            same_value_is_written(a, b, instruction);
        },
        InstructionModel::GetField { object, .. } => {
            assert(operands[0] == object);
            same_value_is_written(a, b, instruction);
        },
        InstructionModel::InvokeVirtual { operand, .. } => {
            assert(operands[0] == operand);
            same_value_is_written(a, b, instruction);
        },
        InstructionModel::InvokeStatic { args, .. } => {
            assert(operands == args);
            assert(args.len() > 0 ==> operands[0] == args[0]);
            assert(args.len() > 1 ==> operands[1] == args[1]);
            assert(args.len() > 2 ==> operands[2] == args[2]);
            assert(args.len() > 3 ==> operands[3] == args[3]);
            same_value_is_written(a, b, instruction);
        },
        _ => {},
    }
}

/// What two machines got under the name that an instruction writes, a number or an object.
proof fn same_value_is_written(a: Machine, b: Machine, instruction: InstructionModel)
    requires
        (stepped(a, instruction) is None && stepped(b, instruction) is None) || ({
            let dest = written_by(instruction)->0;
            let after = stepped(a, instruction)->0;
            let other = stepped(b, instruction)->0;
            let number = Value::Number { bits: after.numbers[dest] };
            let object = after.objects[dest];
            &&& stepped(a, instruction) is Some && stepped(b, instruction) is Some
            &&& a.arrays == b.arrays && a.slots == b.slots
            &&& {
                ||| after == value_assigned(a, dest, number) && other == value_assigned(
                    b,
                    dest,
                    number,
                )
                ||| after == value_assigned(a, dest, object) && other == value_assigned(
                    b,
                    dest,
                    object,
                )
            }
        }),
    ensures
        does_the_same(a, b, instruction),
{
}

/// Whether an instruction has an operand: what a branch depends on, what is returned or thrown,
/// what a call is made on and with, and so on.
pub open spec fn has_operand(instruction: InstructionModel, operand: OperandModel) -> bool {
    match instruction {
        InstructionModel::Binary { op1, op2, .. } => operand == op1 || operand == op2,
        InstructionModel::Compare { op1, op2, .. } => operand == op1 || operand == op2,
        InstructionModel::Not { src, .. } => operand == src,
        InstructionModel::Neg { src, .. } => operand == src,
        InstructionModel::Move { src, .. } => operand == src,
        InstructionModel::Branch { condition, .. } => operand == condition,
        InstructionModel::Switch { discr, .. } => operand == discr,
        InstructionModel::Return { operand: Some(value) } => operand == value,
        InstructionModel::CallIndirect { function_ptr, args, .. } => operand == function_ptr
            || args.contains(operand),
        InstructionModel::InvokeInterface { args, operand: object, .. } => operand == object
            || args.contains(operand),
        InstructionModel::InvokeVirtual { args, operand: object, .. } => operand == object
            || args.contains(operand),
        InstructionModel::InvokeStatic { args, .. } => args.contains(operand),
        InstructionModel::InvokeRustStatic { args, .. } => args.contains(operand),
        InstructionModel::NewArray { size, .. } => operand == size,
        InstructionModel::ArrayStore { index, value, .. } => operand == index || operand == value,
        InstructionModel::ArrayFill { value, .. } => operand == value,
        InstructionModel::ArrayGet { array, index, .. } => operand == array || operand == index,
        InstructionModel::Length { array, .. } => operand == array,
        InstructionModel::ConstructObject { args, .. } => exists|i: int|
            0 <= i < args.len() && (#[trigger] args[i]).0 == operand,
        InstructionModel::SetField { value, .. } => operand == value,
        InstructionModel::GetField { object, .. } => operand == object,
        InstructionModel::Cast { op, .. } => operand == op,
        _ => false,
    }
}

/// An instruction reads each variable with a value among its operands, and also what it changes in
/// place: the object whose field it sets, the array at each of its types, and the exception that it
/// throws again.
pub proof fn operands_are_read(
    instruction: InstructionModel,
    types: Map<Text, Seq<TypeModel>>,
    name: Text,
    ty: TypeModel,
)
    ensures
        has_value(ty) && has_operand(instruction, Operand::Variable { name, ty })
            ==> uses_of(instruction, types).contains((name, ty)),
        instruction matches InstructionModel::SetField { object, owner_class, .. }
            ==> uses_of(instruction, types).contains((object, Type::Class(owner_class))),
        instruction is Rethrow ==> uses_of(instruction, types).contains(unwind_exception()),
        instruction matches InstructionModel::ArrayStore { array, .. } ==> (array == name
            && types.dom().contains(name) && types[name].contains(ty) ==> uses_of(
            instruction,
            types,
        ).contains((name, ty))),
        instruction matches InstructionModel::ArrayFill { array, .. } ==> (array == name
            && types.dom().contains(name) && types[name].contains(ty) ==> uses_of(
            instruction,
            types,
        ).contains((name, ty))),
{
    let operand: OperandModel = Operand::Variable { name, ty };
    let operands = operands_of(instruction);
    let read = variables_in(operands);
    let uses = uses_of(instruction, types);
    if has_value(ty) && has_operand(instruction, operand) {
        match instruction {
            InstructionModel::CallIndirect { args, .. } => {
                if args.contains(operand) {
                    assert(operands[1 + args.index_of(operand)] == operand);
                } else {
                    assert(operands[0] == operand);
                }
            },
            InstructionModel::InvokeInterface { args, .. } => {
                if args.contains(operand) {
                    assert(operands[1 + args.index_of(operand)] == operand);
                } else {
                    assert(operands[0] == operand);
                }
            },
            InstructionModel::InvokeVirtual { args, .. } => {
                if args.contains(operand) {
                    assert(operands[1 + args.index_of(operand)] == operand);
                } else {
                    assert(operands[0] == operand);
                }
            },
            InstructionModel::ConstructObject { args, .. } => {
                let i = choose|i: int| 0 <= i < args.len() && (#[trigger] args[i]).0 == operand;
                assert(operands[i] == operand);
            },
            InstructionModel::InvokeStatic { args, .. } => {
                assert(operands[args.index_of(operand)] == operand);
            },
            InstructionModel::InvokeRustStatic { args, .. } => {
                assert(operands[args.index_of(operand)] == operand);
            },
            _ => {
                assert(operands[0] == operand || operands[1] == operand);
            },
        }
        let k = choose|k: int| 0 <= k < operands.len() && operands[k] == operand;
        variable_is_among(operands, k);
        let j = read.index_of((name, ty));
        assert(uses[j] == (name, ty));
    }
    match instruction {
        InstructionModel::SetField { object, owner_class, .. } => {
            assert(uses.last() == (object, Type::Class(owner_class)));
        },
        InstructionModel::Rethrow => {
            assert(uses.last() == unwind_exception());
        },
        InstructionModel::ArrayStore { .. } | InstructionModel::ArrayFill { .. } => {
            if types.dom().contains(name) && types[name].contains(ty) {
                let k = types[name].index_of(ty);
                assert(read.len() + k < uses.len() ==> uses[read.len() + k] == (name, ty)
                    || written_array(instruction) != Some(name));
            }
        },
        _ => {},
    }
}

/// The array that an instruction stores into.
spec fn written_array(instruction: InstructionModel) -> Option<Text> {
    match instruction {
        InstructionModel::ArrayStore { array, .. } => Some(array),
        InstructionModel::ArrayFill { array, .. } => Some(array),
        _ => None,
    }
}

proof fn variable_is_among(operands: Seq<OperandModel>, k: int)
    requires
        0 <= k < operands.len(),
        operands[k] matches Operand::Variable { ty, .. } && has_value(ty),
    ensures
        operands[k] matches Operand::Variable { name, ty } && variables_in(operands).contains(
            (name, ty),
        ),
    decreases operands.len(),
{
    let front = operands.drop_last();
    let all = variables_in(operands);
    let before = variables_in(front);
    let name = operands[k]->Variable_name;
    let ty = operands[k]->Variable_ty;
    if k < front.len() {
        assert(front[k] == operands[k]);
        variable_is_among(front, k);
        let j = before.index_of((name, ty));
        assert(all[j] == (name, ty));
    } else {
        assert(operands.last() == operands[k]);
        assert(all.last() == (name, ty));
    }
}

/// Control can go from an instruction to each label that it names, and to no other.
pub proof fn targets_are_the_named_labels(instruction: InstructionModel, label: Text)
    ensures
        targets_of(instruction).contains(label) <==> (match instruction {
            InstructionModel::Jump { target } => label == target,
            InstructionModel::UnwindStart { target } => label == target,
            InstructionModel::Branch { true_block, false_block, .. } => label == true_block || label
                == false_block,
            InstructionModel::Switch { targets, otherwise, .. } => label == otherwise
                || exists|i: int|
                0 <= i < targets.len() && (#[trigger] targets[i]).1 == label,
            _ => false,
        }),
{
    let found = targets_of(instruction);
    match instruction {
        InstructionModel::Jump { target } => {
            assert(found[0] == target);
        },
        InstructionModel::UnwindStart { target } => {
            assert(found[0] == target);
        },
        InstructionModel::Branch { true_block, false_block, .. } => {
            assert(found[0] == true_block && found[1] == false_block);
        },
        InstructionModel::Switch { targets, otherwise, .. } => {
            assert(found.last() == otherwise);
            assert forall|i: int| 0 <= i < targets.len() implies found[i] == (#[trigger] targets[
                i
            ]).1 by {}
            if found.contains(label) {
                let k = found.index_of(label);
                if k < targets.len() {
                    assert(targets[k].1 == label);
                }
            }
            if exists|i: int| 0 <= i < targets.len() && (#[trigger] targets[i]).1 == label {
                let i = choose|i: int| 0 <= i < targets.len() && (#[trigger] targets[i]).1 == label;
                assert(found[i] == label);
            }
        },
        _ => {},
    }
}

} // verus!
