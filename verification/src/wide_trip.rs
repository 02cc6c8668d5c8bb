//! What is stored of a 128-bit integer is what is loaded of it.
use crate::code::{
    CodeModel, args2, args4, bool_value, byte_array, calls_static, emit, fresh, i32_value, params2,
    static_method, stores_element, variable,
};
use crate::descriptor::POINTER_CLASS;
use crate::execution::{
    Machine, Value, assigned, assignment_keeps, byte_replaced, executed, full_value,
    is_bit_conversion, is_settled, is_wide_method, kept, kept_by_both, kept_by_nothing, narrowed,
    one_more_step, stepped, taken_is_settled, value_assigned, value_assignment_keeps, value_is_kept,
    wide_bits, wide_number,
};
use crate::oomir::{OperandModel, Text, Type, TypeModel};
use crate::round_trip::{
    goes_on, has_room, holds_bits, masked_byte, position_is_computed, room_is_kept, wide_byte_at,
    wide_number_at, wide_number_is_put_together, with_wide_number,
};
use crate::rust_type::{IntKind, RustType, TypeKind, UintKind, lowered, size_of};
use crate::scalar::{
    is_wide, loaded_scalar, loaded_wide, stored_scalar, stored_wide, stored_wide_byte, wide_method,
};
use crate::union_storage::{UnionStorageModel, byte_position, offset_sum, small_number, wide_reader};
use vstd::prelude::*;
use vstd::string::*;

verus! {

/// Whether a type is a 128-bit integer and a number is one of this type.
pub open spec fn is_wide_number(ty: RustType, number: int) -> bool {
    ||| ty.kind == TypeKind::Int(IntKind::I128) && -0x8000_0000_0000_0000_0000_0000_0000_0000
        <= number < 0x8000_0000_0000_0000_0000_0000_0000_0000
    ||| ty.kind == TypeKind::Uint(UintKind::U128) && 0 <= number
        < 0x1_0000_0000_0000_0000_0000_0000_0000_0000
}

/// The code that stores one byte of a 128-bit integer replaces that byte in the array.
proof fn wide_byte_is_stored(
    source: OperandModel,
    wide_ty: TypeModel,
    index: usize,
    storage: UnionStorageModel,
    base_offset: usize,
    code: CodeModel,
    from: nat,
    first: Machine,
    m: Machine,
    start: u64,
    length: int,
    number: int,
) -> (n: Machine)
    requires
        index < 16,
        from <= code.instructions.len(),
        executed(first, code.instructions, from) == Some(m),
        has_room(m, storage, code.temps, start, length),
        base_offset + index < length,
        code.temps + 2 <= usize::MAX,
        full_value(m, source) == Some(Value::Wide { number }),
    ensures
        executed(
            first,
            stored_wide_byte(source, wide_ty, index, storage, base_offset, code).instructions,
            from,
        ) == Some(n),
        n.arrays == m.arrays.insert(
            storage.bytes_var,
            m.arrays[storage.bytes_var].update(
                start + base_offset + index,
                wide_byte_at(wide_bits(number), index as int),
            ),
        ),
        kept(m, n, code.temps),
        goes_on(code, stored_wide_byte(source, wide_ty, index, storage, base_offset, code), 2),
{
    reveal(stored_wide_byte);
    reveal(is_bit_conversion);
    reveal(is_wide_method);
    reveal(args2);
    reveal_strlit("union_big_integer_byte");
    let byte = wide_byte_at(wide_bits(number), index as int);
    masked_byte(byte);
    let z = narrowed(Type::I8, byte as u64);
    assert(holds_bits(Type::<Text>::U64));
    assert(narrowed(Type::U64, z) & 0xff == byte as u64);
    let (taken, byte_dest) = fresh(code, "union_big_integer_byte"@);
    let call = calls_static(
        byte_dest,
        POINTER_CLASS@,
        "integer128Byte"@,
        static_method(params2("value"@, wide_ty, "byte_index"@, Type::I32), Type::I8),
        args2(source, i32_value(small_number(index))),
    );
    let code1 = emit(taken, call);
    let m1 = assigned(m, byte_dest, z);
    one_more_step(first, taken, from, call);
    assert(stepped(m, call) == Some(m1));
    assignment_keeps(m, "union_big_integer_byte"@, code.temps, z);
    room_is_kept(m, m1, storage, code.temps, code1.temps, start, length);
    let relative_offset = offset_sum(base_offset, index);
    let (code2, position) = byte_position(storage, relative_offset, code1);
    let m2 = position_is_computed(storage, relative_offset, code1, from, first, m1, start, length);
    taken_is_settled("union_big_integer_byte"@, code.temps, code1.temps);
    value_is_kept(m1, m2, code1.temps, variable(byte_dest, Type::I8));
    let store = stores_element(storage.bytes_var, position, variable(byte_dest, Type::I8));
    one_more_step(first, code2, from, store);
    let n = byte_replaced(m2, storage.bytes_var, start + base_offset + index, byte);
    assert(stepped(m2, store) == Some(n));
    kept_by_nothing(m2, n, code2.temps);
    kept_by_both(m1, m2, n, code1.temps, code2.temps);
    kept_by_both(m, m1, n, code.temps, code1.temps);
    n
}

proof fn wide_bytes_are_stored(
    source: OperandModel,
    wide_ty: TypeModel,
    size: nat,
    storage: UnionStorageModel,
    base_offset: usize,
    code: CodeModel,
    from: nat,
    first: Machine,
    m: Machine,
    start: u64,
    number: int,
) -> (n: Machine)
    requires
        size <= 16,
        from <= code.instructions.len(),
        executed(first, code.instructions, from) == Some(m),
        has_room(m, storage, code.temps, start, base_offset + size),
        code.temps + 2 * size <= usize::MAX,
        full_value(m, source) == Some(Value::Wide { number }),
        is_settled(source, code.temps),
    ensures
        executed(
            first,
            stored_wide(source, wide_ty, size, storage, base_offset, code).instructions,
            from,
        ) == Some(n),
        n.arrays == m.arrays.insert(
            storage.bytes_var,
            with_wide_number(
                m.arrays[storage.bytes_var],
                start + base_offset,
                wide_bits(number),
                size as int,
            ),
        ),
        kept(m, n, code.temps),
        goes_on(
            code,
            stored_wide(source, wide_ty, size, storage, base_offset, code),
            2 * size as int,
        ),
    decreases size,
{
    reveal(stored_wide);
    let bytes = m.arrays[storage.bytes_var];
    let at = start + base_offset;
    let x = wide_bits(number);
    if size == 0 {
        kept_by_nothing(m, m, code.temps);
        assert(with_wide_number(bytes, at, x, 0) =~= bytes);
        assert(m.arrays.insert(storage.bytes_var, bytes) =~= m.arrays);
        m
    } else {
        let less = (size - 1) as nat;
        let index = (size - 1) as usize;
        let length = base_offset + size;
        assert(has_room(m, storage, code.temps, start, base_offset + less));
        let before = wide_bytes_are_stored(
            source,
            wide_ty,
            less,
            storage,
            base_offset,
            code,
            from,
            first,
            m,
            start,
            number,
        );
        let code1 = stored_wide(source, wide_ty, less, storage, base_offset, code);
        room_is_kept(m, before, storage, code.temps, code1.temps, start, length);
        value_is_kept(m, before, code.temps, source);
        let n = wide_byte_is_stored(
            source,
            wide_ty,
            index,
            storage,
            base_offset,
            code1,
            from,
            first,
            before,
            start,
            length,
            number,
        );
        kept_by_both(m, before, n, code.temps, code1.temps);
        assert(with_wide_number(bytes, at, x, less as int).update(
            at + index,
            wide_byte_at(x, index as int),
        ) =~= with_wide_number(bytes, at, x, size as int));
        assert(n.arrays =~= m.arrays.insert(
            storage.bytes_var,
            with_wide_number(bytes, at, x, size as int),
        ));
        n
    }
}

/// The code that stores a 128-bit integer leaves its byte `i`, counted from the least significant
/// one, `i` places behind the start, for each of the sixteen bytes. All other bytes, the other
/// arrays and everything but free temporaries stay as they were.
pub proof fn wide_integer_is_stored(
    ty: RustType,
    source: OperandModel,
    storage: UnionStorageModel,
    base_offset: usize,
    code: CodeModel,
    from: nat,
    first: Machine,
    m: Machine,
    start: u64,
    number: int,
) -> (n: Machine)
    requires
        is_wide_number(ty, number),
        size_of(ty) == Ok::<usize, Text>(16),
        from <= code.instructions.len(),
        executed(first, code.instructions, from) == Some(m),
        has_room(m, storage, code.temps, start, base_offset + 16),
        code.temps + 32 <= usize::MAX,
        full_value(m, source) == Some(Value::Wide { number }),
        is_settled(source, code.temps),
    ensures
        ({
            let (after, outcome) = stored_scalar(ty, source, storage, base_offset, code);
            let old_bytes = m.arrays[storage.bytes_var];
            let new_bytes = n.arrays[storage.bytes_var];
            &&& outcome == Ok::<(), Text>(())
            &&& executed(first, after.instructions, from) == Some(n)
            &&& new_bytes.len() == old_bytes.len()
            &&& forall|i: int|
                0 <= i < 16 ==> #[trigger] new_bytes[start + base_offset + i] == wide_byte_at(
                    wide_bits(number),
                    i,
                )
            &&& forall|i: int|
                0 <= i < new_bytes.len() && !(start + base_offset <= i < start + base_offset + 16)
                    ==> #[trigger] new_bytes[i] == old_bytes[i]
            &&& n.arrays == m.arrays.insert(storage.bytes_var, new_bytes)
            &&& new_bytes == with_wide_number(
                old_bytes,
                start + base_offset,
                wide_bits(number),
                16,
            )
            &&& kept(m, n, code.temps)
            &&& goes_on(code, after, 32)
        }),
{
    reveal(stored_scalar);
    wide_bytes_are_stored(
        source,
        lowered(ty),
        16,
        storage,
        base_offset,
        code,
        from,
        first,
        m,
        start,
        number,
    )
}

/// The code that loads a 128-bit integer gives the number whose bytes stand in the array, least
/// significant byte first, with a sign if its type has one, and changes nothing else.
pub proof fn wide_integer_is_loaded(
    ty: RustType,
    storage: UnionStorageModel,
    base_offset: usize,
    code: CodeModel,
    from: nat,
    first: Machine,
    m: Machine,
    start: u64,
) -> (n: Machine)
    requires
        is_wide(ty),
        size_of(ty) == Ok::<usize, Text>(16),
        from <= code.instructions.len(),
        executed(first, code.instructions, from) == Some(m),
        has_room(m, storage, code.temps, start, base_offset + 16),
        code.temps + 2 <= usize::MAX,
    ensures
        ({
            let (after, outcome) = loaded_scalar(ty, storage, base_offset, code);
            let bits = wide_number_at(m.arrays[storage.bytes_var], start + base_offset);
            &&& outcome matches Ok(result)
            &&& executed(first, after.instructions, from) == Some(n)
            &&& full_value(n, result) == Some(
                Value::Wide {
                    number: wide_number(ty.kind == TypeKind::Int(IntKind::I128), bits),
                },
            )
            &&& is_settled(result, after.temps)
            &&& n.arrays == m.arrays
            &&& kept(m, n, code.temps)
            &&& goes_on(code, after, 2)
        }),
{
    reveal(loaded_scalar);
    reveal(loaded_wide);
    reveal(is_bit_conversion);
    reveal(is_wide_method);
    reveal(args4);
    reveal_strlit("union_big_integer_value");
    reveal_strlit("integer128Byte");
    reveal_strlit("u128FromBytes");
    reveal_strlit("i128FromBytes");
    assert("integer128Byte"@.len() == 14);
    assert("u128FromBytes"@.len() == 13);
    assert("i128FromBytes"@.len() == 13);
    assert("u128FromBytes"@[0] == 'u');
    assert("i128FromBytes"@[0] == 'i');
    reveal_with_fuel(lowered, 2);
    let signed = ty.kind == TypeKind::Int(IntKind::I128);
    let (code1, position) = byte_position(storage, base_offset, code);
    let m1 = position_is_computed(
        storage,
        base_offset,
        code,
        from,
        first,
        m,
        start,
        base_offset + 16,
    );
    let (taken, dest) = fresh(code1, "union_big_integer_value"@);
    let call = calls_static(
        dest,
        POINTER_CLASS@,
        wide_method(ty),
        wide_reader(lowered(ty)),
        args4(
            variable(storage.bytes_var, byte_array()),
            position,
            i32_value(small_number(16)),
            bool_value(signed),
        ),
    );
    let bits = wide_number_at(m.arrays[storage.bytes_var], start + base_offset);
    let value = Value::Wide { number: wide_number(signed, bits) };
    let n = value_assigned(m1, dest, value);
    one_more_step(first, taken, from, call);
    assert(stepped(m1, call) == Some(n));
    value_assignment_keeps(m1, "union_big_integer_value"@, code1.temps, value);
    kept_by_both(m, m1, n, code.temps, code1.temps);
    taken_is_settled("union_big_integer_value"@, code1.temps, taken.temps);
    n
}

/// Running the code that stores a 128-bit integer, and then the code that loads one of the same
/// type from the same place, gives the integer.
pub proof fn stored_wide_integer_is_loaded(
    ty: RustType,
    source: OperandModel,
    storage: UnionStorageModel,
    base_offset: usize,
    code: CodeModel,
    from: nat,
    first: Machine,
    m: Machine,
    start: u64,
    number: int,
) -> (n: Machine)
    requires
        is_wide_number(ty, number),
        size_of(ty) == Ok::<usize, Text>(16),
        from <= code.instructions.len(),
        executed(first, code.instructions, from) == Some(m),
        has_room(m, storage, code.temps, start, base_offset + 16),
        code.temps + 34 <= usize::MAX,
        full_value(m, source) == Some(Value::Wide { number }),
        is_settled(source, code.temps),
    ensures
        ({
            let (stored, _) = stored_scalar(ty, source, storage, base_offset, code);
            let (after, outcome) = loaded_scalar(ty, storage, base_offset, stored);
            &&& outcome matches Ok(result)
            &&& executed(first, after.instructions, from) == Some(n)
            &&& full_value(n, result) == Some(Value::Wide { number })
        }),
{
    let before = wide_integer_is_stored(
        ty,
        source,
        storage,
        base_offset,
        code,
        from,
        first,
        m,
        start,
        number,
    );
    let (stored, _) = stored_scalar(ty, source, storage, base_offset, code);
    room_is_kept(m, before, storage, code.temps, stored.temps, start, base_offset + 16);
    wide_number_is_put_together(
        m.arrays[storage.bytes_var],
        start + base_offset,
        wide_bits(number),
    );
    wide_integer_is_loaded(ty, storage, base_offset, stored, from, first, before, start)
}

} // verus!
