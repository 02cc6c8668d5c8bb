//! What straight-line code does to the numbers and the byte arrays of a method.
use crate::code::{CodeModel, byte_array, emit, temp_name};
use crate::oomir::{
    BinaryOp, Constant, InstructionModel, Operand, OperandModel, Text, Type, TypeModel,
    operand_type,
};
use crate::round_trip::{wide_byte_at, wide_number_at};
use crate::text::{decimal_text, digit};
use vstd::prelude::*;
use vstd::string::*;

verus! {

/// A value: a number, which is kept as 64 bits whatever its type, or an object with the values of
/// the fields of its class. A floating-point number is kept as its bits. A 128-bit integer is an
/// object of the runtime, of which only the number matters. Of a pointer, the address matters and
/// how it is seen: the size of what it points to and the codec of that, if they are known. An
/// object that the runtime keeps is known by its address.
pub enum Value {
    Number { bits: u64 },
    Wide { number: int },
    Pointer { address: u64, view_size: Option<u64>, view_codec: Option<Text> },
    Managed { address: u64 },
    Object { class_name: Text, parts: Seq<Value> },
}

/// The numbers, the objects, the byte arrays and what stands in the object arrays of a method at
/// one point of its code, and the fields that the constructor of a class sets, in its order.
pub struct Machine {
    pub numbers: Map<Text, u64>,
    pub objects: Map<Text, Value>,
    pub arrays: Map<Text, Seq<u8>>,
    pub slots: Map<Text, Map<int, Value>>,
    pub classes: Map<Text, Seq<Text>>,
}

/// A number in the bits that a type holds, extended to 64 bits by its sign or by zeros.
pub open spec fn narrowed(ty: TypeModel, x: u64) -> u64 {
    match ty {
        Type::I8 => (((x << 56) as i64) >> 56) as u64,
        Type::I16 => (((x << 48) as i64) >> 48) as u64,
        Type::I32 | Type::F32 => (((x << 32) as i64) >> 32) as u64,
        Type::U8 => x & 0xff,
        Type::U16 => x & 0xffff,
        Type::U32 => x & 0xffff_ffff,
        Type::Boolean => x & 1,
        _ => x,
    }
}

/// Whether a number is one of a type.
pub open spec fn is_of(ty: TypeModel, x: u64) -> bool {
    narrowed(ty, x) == x
}

/// The result of an operation on two numbers, the first one of the given type; nothing for a shift
/// by 64 bits or more and for the operations that move no bits.
pub open spec fn result_of(op: BinaryOp, ty: TypeModel, x: u64, y: u64) -> Option<u64> {
    match op {
        BinaryOp::Add => Some(narrowed(ty, (x + y) as u64)),
        BinaryOp::BitAnd => Some(x & y),
        BinaryOp::BitOr => Some(x | y),
        BinaryOp::Shl => if y < 64 {
            Some(narrowed(ty, x << y))
        } else {
            None
        },
        BinaryOp::Shr => if y >= 64 {
            None
        } else if ty is U64 {
            Some(x >> y)
        } else {
            Some(((x as i64) >> y) as u64)
        },
        _ => None,
    }
}

/// The number that an operand stands for.
pub open spec fn value_of(m: Machine, operand: OperandModel) -> Option<u64> {
    match operand {
        Operand::Constant(Constant::I8(x)) => Some(x as u64),
        Operand::Constant(Constant::I32(x)) => Some(x as u64),
        Operand::Constant(Constant::I64(x)) => Some(x as u64),
        Operand::Constant(Constant::U64(x)) => Some(x),
        Operand::Variable { name, .. } => if m.numbers.contains_key(name) {
            Some(m.numbers[name])
        } else {
            None
        },
        _ => None,
    }
}

/// The machine in which a variable holds a number.
pub open spec fn assigned(m: Machine, name: Text, x: u64) -> Machine {
    Machine { numbers: m.numbers.insert(name, x), ..m }
}

/// The machine in which a variable holds a value.
pub open spec fn value_assigned(m: Machine, name: Text, value: Value) -> Machine {
    match value {
        Value::Number { bits } => assigned(m, name, bits),
        _ => Machine { objects: m.objects.insert(name, value), ..m },
    }
}

/// Whether values of a type are numbers.
pub open spec fn is_numeric(ty: TypeModel) -> bool {
    match ty {
        Type::I8 | Type::U8 | Type::I16 | Type::U16 | Type::I32 | Type::U32 => true,
        Type::I64 | Type::U64 | Type::F32 | Type::F64 | Type::Boolean | Type::Char => true,
        _ => false,
    }
}

/// The value that an operand stands for.
pub open spec fn full_value(m: Machine, operand: OperandModel) -> Option<Value> {
    if is_numeric(operand_type(operand)) {
        match value_of(m, operand) {
            Some(bits) => Some(Value::Number { bits }),
            None => None,
        }
    } else {
        match operand {
            Operand::Variable { name, .. } => if m.objects.contains_key(name) {
                Some(m.objects[name])
            } else {
                None
            },
            _ => None,
        }
    }
}

/// The value of a field of an object.
pub open spec fn field_value(m: Machine, object: Value, field_name: Text) -> Option<Value> {
    match object {
        Value::Object { class_name, parts } => if m.classes.contains_key(class_name)
            && m.classes[class_name].contains(field_name) && parts.len()
            == m.classes[class_name].len() {
            Some(parts[m.classes[class_name].index_of(field_name)])
        } else {
            None
        },
        _ => None,
    }
}

/// The machine in which one byte of an array is replaced.
pub open spec fn byte_replaced(m: Machine, array: Text, index: int, byte: u8) -> Machine {
    Machine { arrays: m.arrays.insert(array, m.arrays[array].update(index, byte)), ..m }
}

/// The machine in which an object stands at a place of an array.
pub open spec fn slot_filled(m: Machine, array: Text, index: int, object: Value) -> Machine {
    let before = if m.slots.contains_key(array) {
        m.slots[array]
    } else {
        Map::empty()
    };
    Machine { slots: m.slots.insert(array, before.insert(index, object)), ..m }
}

/// The machine with a new array; only the elements of byte arrays are looked at.
pub open spec fn array_made(
    m: Machine,
    array: Text,
    element_type: TypeModel,
    length: u64,
) -> Machine {
    if element_type is I8 {
        Machine { arrays: m.arrays.insert(array, Seq::new(length as nat, |i: int| 0u8)), ..m }
    } else {
        m
    }
}

/// Whether an array has a byte at an index.
pub open spec fn has_byte(m: Machine, array: Text, index: u64) -> bool {
    m.arrays.contains_key(array) && index < m.arrays[array].len()
}

/// Whether a static method of the runtime takes a 128-bit integer apart or puts one together.
#[verifier::opaque]
pub open spec fn is_wide_method(class_name: Text, method_name: Text) -> bool {
    class_name == "org/rustlang/runtime/Pointer"@ && (method_name == "integer128Byte"@
        || method_name == "u128FromBytes"@ || method_name == "i128FromBytes"@)
}

/// The bits of a 128-bit integer; those of a negative number are its two's complement.
pub open spec fn wide_bits(number: int) -> u128 {
    if number < 0 {
        (number + 0x1_0000_0000_0000_0000_0000_0000_0000_0000) as u128
    } else {
        number as u128
    }
}

/// The 128-bit integer of some bits, with a sign or without one.
pub open spec fn wide_number(signed: bool, bits: u128) -> int {
    if signed && bits >= 0x8000_0000_0000_0000_0000_0000_0000_0000 {
        bits - 0x1_0000_0000_0000_0000_0000_0000_0000_0000
    } else {
        bits as int
    }
}

/// The machine behind a call of a method that takes a 128-bit integer apart or puts one together:
/// `integer128Byte` gives one byte of a number, counted from the least significant one, and
/// `u128FromBytes` and `i128FromBytes` give the number of sixteen bytes, least significant byte
/// first.
pub open spec fn wide_converted(
    m: Machine,
    dest: Text,
    method_name: Text,
    args: Seq<OperandModel>,
) -> Option<Machine> {
    if method_name == "integer128Byte"@ {
        match (full_value(m, args[0]), value_of(m, args[1])) {
            (Some(Value::Wide { number }), Some(i)) => if args.len() == 2 && i < 16 {
                let byte = wide_byte_at(wide_bits(number), i as int);
                Some(assigned(m, dest, narrowed(Type::I8, byte as u64)))
            } else {
                None
            },
            _ => None,
        }
    } else {
        let signed = method_name == "i128FromBytes"@;
        match (args[0], value_of(m, args[1]), value_of(m, args[2]), args[3]) {
            (
                Operand::Variable { name, .. },
                Some(at),
                Some(size),
                Operand::Constant(Constant::Boolean(flag)),
            ) => if args.len() == 4 && size == 16 && flag == signed && m.arrays.contains_key(name)
                && at + 16 <= m.arrays[name].len() {
                let bits = wide_number_at(m.arrays[name], at as int);
                Some(value_assigned(m, dest, Value::Wide { number: wide_number(signed, bits) }))
            } else {
                None
            },
            _ => None,
        }
    }
}

/// Whether a static method of the runtime takes the address of a pointer or of an object, or makes
/// a pointer or an object of an address.
#[verifier::opaque]
pub open spec fn is_address_method(class_name: Text, method_name: Text) -> bool {
    class_name == "org/rustlang/runtime/Pointer"@ && (method_name == "managedObjectAddress"@
        || method_name == "managedObjectFromAddress"@ || method_name == "erasedAddress"@
        || method_name == "fromErasedAddress"@ || method_name == "encodedAddress"@ || method_name
        == "fromEncodedAddress"@ || method_name == "fromAddress"@)
}

/// The codec that an operand stands for: a text, or none.
pub open spec fn codec_of(operand: OperandModel) -> Option<Option<Text>> {
    match operand {
        Operand::Constant(Constant::String(text)) => Some(Some(text)),
        Operand::Constant(Constant::Null(_)) => Some(None),
        _ => None,
    }
}

/// Whether operands are a byte array and a part of it: where the part starts, and its size.
pub open spec fn is_part(
    m: Machine,
    array: OperandModel,
    start: OperandModel,
    size: OperandModel,
) -> bool {
    match (array, value_of(m, start), value_of(m, size)) {
        (Operand::Variable { name, .. }, Some(at), Some(n)) => m.arrays.contains_key(name) && at + n
            <= m.arrays[name].len(),
        _ => false,
    }
}

/// The machine behind a call of a method that takes an address or makes something of one. The
/// address of a pointer is taken for the part of a byte array that it is to be stored in; a pointer
/// is made with the size and the codec of what it points to, unless these are erased.
pub open spec fn address_converted(
    m: Machine,
    dest: Text,
    method_name: Text,
    args: Seq<OperandModel>,
) -> Option<Machine> {
    if method_name == "managedObjectAddress"@ {
        match full_value(m, args[0]) {
            Some(Value::Managed { address }) => if args.len() == 1 {
                Some(assigned(m, dest, address))
            } else {
                None
            },
            _ => None,
        }
    } else if method_name == "erasedAddress"@ || method_name == "encodedAddress"@ {
        match full_value(m, args[0]) {
            Some(Value::Pointer { address, .. }) => if (method_name == "erasedAddress"@
                && args.len() == 1) || (method_name == "encodedAddress"@ && args.len() == 2) || (
            method_name == "encodedAddress"@ && args.len() == 5 && is_part(
                m,
                args[1],
                args[2],
                args[3],
            )) {
                Some(assigned(m, dest, address))
            } else {
                None
            },
            _ => None,
        }
    } else {
        match value_of(m, args[0]) {
            Some(address) => if method_name == "managedObjectFromAddress"@ && args.len() == 1 {
                Some(value_assigned(m, dest, Value::Managed { address }))
            } else if method_name == "fromErasedAddress"@ && args.len() == 1 {
                Some(
                    value_assigned(
                        m,
                        dest,
                        Value::Pointer { address, view_size: None, view_codec: None },
                    ),
                )
            } else if (method_name == "fromEncodedAddress"@ && args.len() == 4) || (method_name
                == "fromAddress"@ && args.len() == 3) {
                match (value_of(m, args[1]), codec_of(args[2])) {
                    (Some(size), Some(view_codec)) => Some(
                        value_assigned(
                            m,
                            dest,
                            Value::Pointer { address, view_size: Some(size), view_codec },
                        ),
                    ),
                    _ => None,
                }
            } else {
                None
            },
            None => None,
        }
    }
}

/// The number that a method of an object gives: the halves of a 128-bit floating-point number,
/// which is made of its high and its low half.
pub open spec fn half_of(value: Option<Value>, class_name: Text, method_name: Text) -> Option<u64> {
    match value {
        Some(Value::Object { class_name: found, parts }) => if class_name
            == "org/rustlang/runtime/F128"@ && found == class_name && parts.len() == 2 {
            if method_name == "highBits"@ && parts[0] is Number {
                Some(parts[0]->bits)
            } else if method_name == "lowBits"@ && parts[1] is Number {
                Some(parts[1]->bits)
            } else {
                None
            }
        } else {
            None
        },
        _ => None,
    }
}

/// Whether a static method of the platform turns a floating-point number into its bits, or bits
/// into the number, or one of the runtime does so with a 128-bit integer and its bytes, or with a
/// pointer and its address.
#[verifier::opaque]
pub open spec fn is_bit_conversion(class_name: Text, method_name: Text) -> bool {
    ||| is_wide_method(class_name, method_name)
    ||| is_address_method(class_name, method_name)
    ||| class_name == "java/lang/Float"@ && (method_name == "floatToRawIntBits"@ || method_name
        == "intBitsToFloat"@)
    ||| class_name == "java/lang/Double"@ && (method_name == "doubleToRawLongBits"@ || method_name
        == "longBitsToDouble"@)
}

/// The machine behind one instruction; nothing where the instruction fails or does more than move
/// numbers and bytes.
pub open spec fn stepped(m: Machine, instruction: InstructionModel) -> Option<Machine> {
    match instruction {
        InstructionModel::Binary { op, dest, op1, op2 } => match (
            value_of(m, op1),
            value_of(m, op2),
        ) {
            (Some(x), Some(y)) => match result_of(op, operand_type(op1), x, y) {
                Some(z) => Some(assigned(m, dest, z)),
                None => None,
            },
            _ => None,
        },
        InstructionModel::Cast { op, ty, dest } => if is_numeric(ty) {
            match value_of(m, op) {
                Some(x) => Some(assigned(m, dest, narrowed(ty, x))),
                None => None,
            }
        } else {
            match full_value(m, op) {
                Some(value) => Some(value_assigned(m, dest, value)),
                None => None,
            }
        },
        InstructionModel::InvokeVirtual {
            dest: Some(dest),
            class_name,
            method_name,
            args,
            operand,
            ..
        } => match half_of(full_value(m, operand), class_name, method_name) {
            Some(bits) => if args.len() == 0 {
                Some(assigned(m, dest, bits))
            } else {
                None
            },
            None => None,
        },
        InstructionModel::InvokeStatic {
            dest: Some(dest),
            class_name,
            method_name,
            method_ty,
            args,
        } => if !is_bit_conversion(class_name, method_name) {
            None
        } else if is_wide_method(class_name, method_name) {
            wide_converted(m, dest, method_name, args)
        } else if is_address_method(class_name, method_name) {
            address_converted(m, dest, method_name, args)
        } else if args.len() == 1 {
            match value_of(m, args[0]) {
                Some(x) => Some(assigned(m, dest, narrowed(method_ty.ret, x))),
                None => None,
            }
        } else {
            None
        },
        InstructionModel::Move { dest, src } => match full_value(m, src) {
            Some(value) => Some(value_assigned(m, dest, value)),
            None => None,
        },
        InstructionModel::NewArray { dest, element_type, size } => match value_of(m, size) {
            Some(length) => Some(array_made(m, dest, element_type, length)),
            None => None,
        },
        InstructionModel::ArrayStore { array, index, value, .. } => if is_numeric(
            operand_type(value),
        ) {
            match (value_of(m, index), value_of(m, value)) {
                (Some(i), Some(x)) => if has_byte(m, array, i) {
                    Some(byte_replaced(m, array, i as int, (x & 0xff) as u8))
                } else {
                    None
                },
                _ => None,
            }
        } else {
            match (value_of(m, index), full_value(m, value)) {
                (Some(i), Some(object)) => Some(slot_filled(m, array, i as int, object)),
                _ => None,
            }
        },
        InstructionModel::ArrayGet { dest, array: Operand::Variable { name, ty }, index } => {
            match value_of(m, index) {
                Some(i) => if ty == byte_array() {
                    if has_byte(m, name, i) {
                        Some(assigned(m, dest, narrowed(Type::I8, m.arrays[name][i as int] as u64)))
                    } else {
                        None
                    }
                } else if m.slots.contains_key(name) && m.slots[name].contains_key(i as int) {
                    Some(value_assigned(m, dest, m.slots[name][i as int]))
                } else {
                    None
                },
                None => None,
            }
        },
        InstructionModel::GetField { dest, object, field_name, .. } => match full_value(m, object) {
            Some(value) => match field_value(m, value, field_name) {
                Some(part) => Some(value_assigned(m, dest, part)),
                None => None,
            },
            None => None,
        },
        InstructionModel::ConstructObject { dest, class_name, args } => if forall|i: int|
            0 <= i < args.len() ==> full_value(m, #[trigger] args[i].0) is Some {
            Some(
                value_assigned(
                    m,
                    dest,
                    Value::Object {
                        class_name,
                        parts: Seq::new(args.len(), |i: int| full_value(m, args[i].0)->0),
                    },
                ),
            )
        } else {
            None
        },
        _ => None,
    }
}

/// The machine behind the instructions from a position on.
pub open spec fn executed(m: Machine, list: Seq<InstructionModel>, from: nat) -> Option<Machine>
    decreases list.len(),
{
    if list.len() <= from {
        Some(m)
    } else {
        match executed(m, list.drop_last(), from) {
            Some(before) => stepped(before, list.last()),
            None => None,
        }
    }
}

/// Code that is one instruction longer does one more step.
pub proof fn one_more_step(m: Machine, code: CodeModel, from: nat, instruction: InstructionModel)
    requires
        from <= code.instructions.len(),
    ensures
        executed(m, emit(code, instruction).instructions, from) == (match executed(
            m,
            code.instructions,
            from,
        ) {
            Some(before) => stepped(before, instruction),
            None => None,
        }),
{
    let list = code.instructions.push(instruction);
    assert(list.drop_last() =~= code.instructions);
    assert(list.last() == instruction);
}

/// Whether a name is that of a temporary that is not taken yet, where numbers from `temps` on are
/// free.
#[verifier::opaque]
pub open spec fn is_later(name: Text, temps: usize) -> bool {
    exists|prefix: Text, number: usize|
        prefix.len() > 0 && number >= temps && name == #[trigger] temp_name(prefix, number)
}

/// Whether two machines differ in free temporaries and in arrays only.
#[verifier::opaque]
pub open spec fn kept(m: Machine, n: Machine, temps: usize) -> bool {
    &&& n.classes == m.classes
    &&& forall|name: Text|
        !#[trigger] is_later(name, temps) ==> {
            &&& n.numbers.contains_key(name) == m.numbers.contains_key(name)
            &&& n.numbers[name] == m.numbers[name]
            &&& n.objects.contains_key(name) == m.objects.contains_key(name)
            &&& n.objects[name] == m.objects[name]
        }
}

/// Whether an operand is a constant or a variable other than the free temporaries.
pub open spec fn is_settled(operand: OperandModel, temps: usize) -> bool {
    match operand {
        Operand::Variable { name, .. } => !is_later(name, temps),
        _ => true,
    }
}

/// An assignment to the next temporary keeps everything else.
pub proof fn assignment_keeps(m: Machine, prefix: Text, temps: usize, x: u64)
    requires
        prefix.len() > 0,
    ensures
        kept(m, assigned(m, temp_name(prefix, temps), x), temps),
{
    value_assignment_keeps(m, prefix, temps, Value::Number { bits: x });
}

/// An assignment of any value to the next temporary keeps everything else.
pub proof fn value_assignment_keeps(m: Machine, prefix: Text, temps: usize, value: Value)
    requires
        prefix.len() > 0,
    ensures
        kept(m, value_assigned(m, temp_name(prefix, temps), value), temps),
{
    reveal(kept);
    assert forall|name: Text| !#[trigger] is_later(name, temps) implies name != temp_name(
        prefix,
        temps,
    ) by {
        reveal(is_later);
    }
}

/// What is kept by two runs is kept by one behind the other.
pub proof fn kept_by_both(l: Machine, m: Machine, n: Machine, first: usize, second: usize)
    requires
        kept(l, m, first),
        kept(m, n, second),
        first <= second,
    ensures
        kept(l, n, first),
{
    reveal(kept);
    assert forall|name: Text| !#[trigger] is_later(name, first) implies !is_later(
        name,
        second,
    ) by {
        reveal(is_later);
    }
}

/// A machine is kept by doing nothing.
pub proof fn kept_by_nothing(m: Machine, n: Machine, temps: usize)
    requires
        m.numbers == n.numbers,
        m.objects == n.objects,
        m.classes == n.classes,
    ensures
        kept(m, n, temps),
        n.classes == m.classes,
{
    reveal(kept);
}

/// The classes are always kept.
pub proof fn classes_are_kept(m: Machine, n: Machine, temps: usize)
    requires
        kept(m, n, temps),
    ensures
        n.classes == m.classes,
{
    reveal(kept);
}

/// A settled operand stands for the same number when everything but free temporaries is kept.
pub proof fn value_is_kept(m: Machine, n: Machine, temps: usize, operand: OperandModel)
    requires
        kept(m, n, temps),
        is_settled(operand, temps),
    ensures
        value_of(n, operand) == value_of(m, operand),
        full_value(n, operand) == full_value(m, operand),
{
    reveal(kept);
}

/// A decimal number has at least one character, and each of them is a digit.
pub proof fn decimal_is_digits(n: nat)
    ensures
        decimal_text(n).len() > 0,
        forall|i: int| 0 <= i < decimal_text(n).len()
            ==> '0' <= #[trigger] decimal_text(n)[i] <= '9',
    decreases n,
{
    if n >= 10 {
        decimal_is_digits(n / 10);
    }
}

/// Different numbers have different decimal texts.
pub proof fn decimals_differ(a: nat, b: nat)
    requires
        decimal_text(a) == decimal_text(b),
    ensures
        a == b,
    decreases a,
{
    decimal_is_digits(a / 10);
    decimal_is_digits(b / 10);
    let x = decimal_text(a);
    let y = decimal_text(b);
    assert(x.last() == y.last());
    assert(x.last() == digit(a % 10));
    assert(y.last() == digit(b % 10));
    if a >= 10 && b >= 10 {
        assert(x.drop_last() =~= decimal_text(a / 10));
        assert(y.drop_last() =~= decimal_text(b / 10));
        decimals_differ(a / 10, b / 10);
    }
}

/// Temporaries with different numbers have different names, whatever their prefixes.
pub proof fn temporaries_differ(p: Text, i: usize, q: Text, j: usize)
    requires
        temp_name(p, i) == temp_name(q, j),
    ensures
        i == j,
{
    reveal_strlit("_");
    decimal_is_digits(i as nat);
    decimal_is_digits(j as nat);
    let a = decimal_text(i as nat);
    let b = decimal_text(j as nat);
    let name = temp_name(p, i);
    let n = name.len() as int;
    assert(name[n - a.len() - 1] == '_');
    assert(name[n - b.len() - 1] == '_');
    assert(forall|k: int| 0 <= k < a.len() ==> name[n - a.len() + k] == #[trigger] a[k]);
    assert(forall|k: int| 0 <= k < b.len() ==> name[n - b.len() + k] == #[trigger] b[k]);
    if a.len() < b.len() {
        assert(b[b.len() - a.len() - 1] == '_');
    } else if b.len() < a.len() {
        assert(a[a.len() - b.len() - 1] == '_');
    }
    assert(a =~= b) by {
        assert forall|k: int| 0 <= k < a.len() implies a[k] == b[k] by {
            assert(name[n - a.len() + k] == a[k]);
            assert(name[n - b.len() + k] == b[k]);
        }
    }
    decimals_differ(i as nat, j as nat);
}

/// A temporary that is taken is not among the free ones.
pub proof fn taken_is_settled(prefix: Text, number: usize, temps: usize)
    requires
        number < temps,
    ensures
        !is_later(temp_name(prefix, number), temps),
{
    reveal(is_later);
    if is_later(temp_name(prefix, number), temps) {
        let (p, n) = choose|p: Text, n: usize|
            p.len() > 0 && n >= temps && temp_name(prefix, number) == #[trigger] temp_name(p, n);
        temporaries_differ(prefix, number, p, n);
    }
}

/// What is settled stays so when more temporaries are taken.
pub proof fn settled_for_longer(operand: OperandModel, first: usize, second: usize)
    requires
        is_settled(operand, first),
        first <= second,
    ensures
        is_settled(operand, second),
{
    reveal(is_later);
}

} // verus!
