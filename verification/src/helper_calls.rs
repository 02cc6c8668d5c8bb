//! What code does that calls helper methods of its own class.
use crate::code::{CodeModel, byte_array, emit};
use crate::codec::slot_rank;
use crate::execution::{
    Machine, decimal_is_digits, decimals_differ, executed, full_value, is_address_method,
    is_bit_conversion, is_wide_method, stepped, value_assigned,
};
use crate::layout::SlotModel;
use crate::oomir::{DataTypeMethodModel, Function, InstructionModel, Operand, OperandModel, Text};
use crate::text::decimal_text;
use crate::union_trip::only_list;
use vstd::prelude::*;
use vstd::string::*;

verus! {

/// The methods of a class.
pub type Methods = Map<Text, DataTypeMethodModel>;

/// The name of a parameter of a method.
pub open spec fn param_name(number: nat) -> Text {
    "_"@ + decimal_text(number)
}

/// Whether an operand is a variable that holds a byte array.
pub open spec fn is_byte_array(operand: OperandModel) -> bool {
    operand matches Operand::Variable { ty, .. } && ty == byte_array()
}

/// A method at its start, with the first arguments of a call in its parameters. A byte array is
/// shared with the caller.
pub open spec fn entered(m: Machine, args: Seq<OperandModel>, n: nat) -> Machine
    decreases n,
{
    if n == 0 || n > args.len() {
        Machine {
            numbers: Map::empty(),
            objects: Map::empty(),
            arrays: Map::empty(),
            slots: Map::empty(),
            classes: m.classes,
        }
    } else {
        let before = entered(m, args, (n - 1) as nat);
        let arg = args[n - 1];
        if is_byte_array(arg) {
            Machine {
                arrays: before.arrays.insert(param_name(n), m.arrays[arg->Variable_name]),
                ..before
            }
        } else {
            match full_value(m, arg) {
                Some(value) => value_assigned(before, param_name(n), value),
                None => before,
            }
        }
    }
}

/// The caller behind a call, with what the method left in the byte arrays of the first arguments.
pub open spec fn left(m: Machine, callee: Machine, args: Seq<OperandModel>, n: nat) -> Machine
    decreases n,
{
    if n == 0 || n > args.len() {
        m
    } else {
        let before = left(m, callee, args, (n - 1) as nat);
        let arg = args[n - 1];
        if is_byte_array(arg) {
            Machine {
                arrays: before.arrays.insert(arg->Variable_name, callee.arrays[param_name(n)]),
                ..before
            }
        } else {
            before
        }
    }
}

/// The only list of instructions of a method.
pub open spec fn method_list(methods: Methods, name: Text) -> Seq<InstructionModel> {
    only_list(methods[name]->Function_0.body)
}

/// What an instruction does, calls of methods of the own class included, if there are at most so
/// many within each other.
pub open spec fn run_step(
    methods: Methods,
    own_class: Text,
    m: Machine,
    instruction: InstructionModel,
    depth: nat,
) -> Option<Machine>
    decreases depth, 0nat,
{
    match instruction {
        InstructionModel::InvokeStatic { dest, class_name, method_name, args, .. } => {
            let list = method_list(methods, method_name);
            if is_bit_conversion(class_name, method_name) {
                stepped(m, instruction)
            } else if class_name != own_class || !methods.contains_key(method_name)
                || !(methods[method_name] is Function) || list.len() == 0 || depth == 0 {
                None
            } else {
                match run(
                    methods,
                    own_class,
                    entered(m, args, args.len()),
                    list.drop_last(),
                    0,
                    (depth - 1) as nat,
                ) {
                    None => None,
                    Some(callee) => {
                        let after = left(m, callee, args, args.len());
                        match (dest, list.last()) {
                            (None, InstructionModel::Return { operand: None }) => Some(after),
                            (
                                Some(name),
                                InstructionModel::Return { operand: Some(operand) },
                            ) => match full_value(callee, operand) {
                                Some(value) => Some(value_assigned(after, name, value)),
                                None => None,
                            },
                            _ => None,
                        }
                    },
                }
            }
        },
        _ => stepped(m, instruction),
    }
}

/// What a list of instructions does from one on, calls of methods of the own class included.
pub open spec fn run(
    methods: Methods,
    own_class: Text,
    m: Machine,
    list: Seq<InstructionModel>,
    from: nat,
    depth: nat,
) -> Option<Machine>
    decreases depth, list.len(),
{
    if list.len() <= from {
        Some(m)
    } else {
        match run(methods, own_class, m, list.drop_last(), from, depth) {
            Some(before) => run_step(methods, own_class, before, list.last(), depth),
            None => None,
        }
    }
}

/// The helpers of a codec are not the methods that turn floating-point numbers into bits and back,
/// nor those that take 128-bit integers and pointers apart and put them together.
pub proof fn helpers_are_no_conversions(class_name: Text, verb: Text, path: Text)
    requires
        verb == "_encode"@ || verb == "_decode"@,
    ensures
        !is_bit_conversion(class_name, verb + path),
{
    reveal(is_bit_conversion);
    reveal(is_wide_method);
    reveal(is_address_method);
    reveal_strlit("managedObjectAddress");
    reveal_strlit("managedObjectFromAddress");
    reveal_strlit("erasedAddress");
    reveal_strlit("fromErasedAddress");
    reveal_strlit("encodedAddress");
    reveal_strlit("fromEncodedAddress");
    reveal_strlit("fromAddress");
    reveal_strlit("integer128Byte");
    reveal_strlit("u128FromBytes");
    reveal_strlit("i128FromBytes");
    reveal_strlit("_encode");
    reveal_strlit("_decode");
    reveal_strlit("floatToRawIntBits");
    reveal_strlit("intBitsToFloat");
    reveal_strlit("doubleToRawLongBits");
    reveal_strlit("longBitsToDouble");
    assert((verb + path)[0] == '_');
    assert("floatToRawIntBits"@[0] == 'f' && "intBitsToFloat"@[0] == 'i');
    assert("integer128Byte"@[0] == 'i' && "u128FromBytes"@[0] == 'u' && "i128FromBytes"@[0] == 'i');
    assert("managedObjectAddress"@[0] == 'm' && "managedObjectFromAddress"@[0] == 'm');
    assert("erasedAddress"@[0] == 'e' && "encodedAddress"@[0] == 'e');
    assert("fromErasedAddress"@[0] == 'f' && "fromEncodedAddress"@[0] == 'f');
    assert("fromAddress"@[0] == 'f');
    assert("doubleToRawLongBits"@[0] == 'd' && "longBitsToDouble"@[0] == 'l');
}

/// Code without calls that goes on from code with calls does what it does by itself.
pub proof fn run_goes_on(
    methods: Methods,
    own_class: Text,
    first: Machine,
    m: Machine,
    list: Seq<InstructionModel>,
    from: nat,
    middle: nat,
    depth: nat,
)
    requires
        from <= middle <= list.len(),
        run(methods, own_class, first, list.take(middle as int), from, depth) == Some(m),
        executed(m, list, middle) is Some,
    ensures
        run(methods, own_class, first, list, from, depth) == executed(m, list, middle),
    decreases list.len(),
{
    if list.len() == middle {
        assert(list.take(middle as int) =~= list);
    } else {
        assert(list.drop_last().take(middle as int) =~= list.take(middle as int));
        run_goes_on(methods, own_class, first, m, list.drop_last(), from, middle, depth);
        let before = executed(m, list.drop_last(), middle)->0;
        assert(stepped(before, list.last()) is Some);
        assert(run_step(methods, own_class, before, list.last(), depth) == stepped(
            before,
            list.last(),
        ));
    }
}

/// One more instruction is one more step.
pub proof fn run_one_more(
    methods: Methods,
    own_class: Text,
    first: Machine,
    code: CodeModel,
    from: nat,
    instruction: InstructionModel,
    depth: nat,
)
    requires
        from <= code.instructions.len(),
    ensures
        run(
            methods,
            own_class,
            first,
            emit(code, instruction).instructions,
            from,
            depth,
        ) == (match run(
            methods,
            own_class,
            first,
            code.instructions,
            from,
            depth,
        ) {
            Some(before) => run_step(methods, own_class, before, instruction, depth),
            None => None,
        }),
{
    assert(emit(code, instruction).instructions.drop_last() =~= code.instructions);
}

/// The name of the helper of a part of a part.
pub open spec fn helper_name(verb: Text, path: Text, number: nat) -> Text {
    verb + (path + "Field"@ + decimal_text(number))
}

/// Whether a name is that of the helper of a part, or of a part of it.
#[verifier::opaque]
pub open spec fn is_under(name: Text, verb: Text, path: Text, number: nat) -> bool {
    exists|rest: Text|
        name == #[trigger] (helper_name(verb, path, number) + rest) && (rest.len() == 0 || rest[0]
            == 'F')
}

/// The helper of a part is named after it.
pub proof fn helper_is_under(verb: Text, path: Text, number: nat)
    ensures
        is_under(helper_name(verb, path, number), verb, path, number),
{
    reveal(is_under);
    let name = helper_name(verb, path, number);
    assert(name =~= name + Seq::<char>::empty());
}

/// The helpers of the parts of a part are named after it, and differently.
pub proof fn nested_is_under(name: Text, verb: Text, path: Text, number: nat, inner: nat)
    requires
        is_under(name, verb, path + "Field"@ + decimal_text(number), inner),
    ensures
        is_under(name, verb, path, number),
        name != helper_name(verb, path, number),
{
    reveal(is_under);
    reveal_strlit("Field");
    let outer_path = path + "Field"@ + decimal_text(number);
    let rest = choose|rest: Text|
        name == #[trigger] (helper_name(verb, outer_path, inner) + rest) && (rest.len() == 0
            || rest[0] == 'F');
    let more = "Field"@ + decimal_text(inner) + rest;
    assert(name =~= helper_name(verb, path, number) + more);
    assert(more[0] == 'F');
}

/// A name is not that of helpers of two parts.
pub proof fn parts_are_named_apart(name: Text, verb: Text, path: Text, a: nat, b: nat)
    requires
        is_under(name, verb, path, a),
        is_under(name, verb, path, b),
    ensures
        a == b,
{
    reveal(is_under);
    let x = choose|rest: Text|
        name == #[trigger] (helper_name(verb, path, a) + rest) && (rest.len() == 0 || rest[0]
            == 'F');
    let y = choose|rest: Text|
        name == #[trigger] (helper_name(verb, path, b) + rest) && (rest.len() == 0 || rest[0]
            == 'F');
    let start = (verb + (path + "Field"@)).len() as int;
    let p = decimal_text(a);
    let q = decimal_text(b);
    assert(name.skip(start) =~= p + x);
    assert(name.skip(start) =~= q + y);
    decimal_is_digits(a);
    decimal_is_digits(b);
    if p.len() < q.len() {
        assert((q + y)[p.len() as int] == q[p.len() as int]);
        assert((p + x)[p.len() as int] == x[0]);
    } else if q.len() < p.len() {
        assert((p + x)[q.len() as int] == p[q.len() as int]);
        assert((q + y)[q.len() as int] == y[0]);
    } else {
        assert((p + x).take(p.len() as int) =~= p);
        assert((q + y).take(q.len() as int) =~= q);
        decimals_differ(a, b);
    }
}

/// Whether a name is not that of a helper of a part from one on.
pub open spec fn is_apart(name: Text, verb: Text, path: Text, from: nat) -> bool {
    forall|number: nat| number >= from ==> !#[trigger] is_under(name, verb, path, number)
}

/// Whether methods are those of a class, as far as they are helpers of parts from one on.
pub open spec fn are_there(all: Methods, some: Methods, verb: Text, path: Text, from: nat) -> bool {
    forall|name: Text, number: nat|
        number >= from && #[trigger] is_under(name, verb, path, number) && some.contains_key(name)
            ==> all.contains_key(name) && all[name] == some[name]
}

/// The rank of a slot grows by the slots before it.
pub proof fn slot_rank_grows(slots: Seq<Option<SlotModel>>, index: usize)
    requires
        index < slots.len() <= usize::MAX,
    ensures
        slot_rank(slots, (index + 1) as usize) == slot_rank(slots, index) + if slots[index as int]
            is Some {
            1nat
        } else {
            0nat
        },
{
    let longer = slots.take(index + 1);
    assert(longer.drop_last() =~= slots.take(index as int));
    assert(longer.last() == slots[index as int]);
}

} // verus!
