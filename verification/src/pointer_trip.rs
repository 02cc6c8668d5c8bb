//! What is stored of pointers, objects and 128-bit floating-point numbers is what is loaded of
//! them.
use crate::code::{
    CodeModel, DefinitionsModel, args0, args1, args2, args3, args4, args5, byte_array, calls_static,
    calls_virtual, converts, emit, fresh, i32_value, i8_value, instance_method, makes_object,
    object_array, object_class, params0, params1, params2, reads_element, static_method,
    stores_element, text_value, typed2, u64_value, variable,
};
use crate::codec::{codec_value, encoded_address, from_address, from_encoded_address, pointee_of};
use crate::descriptor::POINTER_CLASS;
use crate::execution::{
    Machine, Value, assigned, assignment_keeps, byte_replaced, executed, full_value,
    is_address_method, is_bit_conversion, is_numeric, is_part, is_settled, is_wide_method, kept,
    kept_by_both, kept_by_nothing, one_more_step, slot_filled, stepped, taken_is_settled,
    value_assigned, value_is_kept, value_of,
};
use crate::load::{loaded, loaded_pointer, loaded_thin};
use crate::lowering::type_defined;
use crate::oomir::{InstructionModel, OperandModel, Text, Type, TypeModel, operand_type};
use crate::pointer_codec::{builtin_codec, fat_codec, view_codec};
use crate::round_trip::{
    bits_are_loaded, bits_are_stored, goes_on, has_room, masked_byte, number_at,
    number_is_put_together, position_is_computed, room_is_kept, with_number,
};
use crate::rust_type::{FloatKind, RustType, TypeKind, is_dynamic, lowered, size_of};
use crate::store::{f128_half, stored, stored_pointer, stored_thin};
use crate::union_storage::{
    F128_CLASS, UnionStorageModel, addressed_object, byte_position, loaded_bits,
    loaded_managed_object, loaded_object, object_address, offset_sum, stored_bits,
    stored_managed_object, stored_object, zeroed_byte, zeroed_bytes,
};
use vstd::prelude::*;
use vstd::string::*;

verus! {

proof fn address_names_differ()
    ensures
        "managedObjectAddress"@.len() == 20,
        "managedObjectFromAddress"@.len() == 24,
        "erasedAddress"@.len() == 13,
        "fromErasedAddress"@.len() == 17,
        "encodedAddress"@.len() == 14,
        "fromEncodedAddress"@.len() == 18,
        "fromAddress"@.len() == 11,
        !is_wide_method(POINTER_CLASS@, "managedObjectAddress"@),
        !is_wide_method(POINTER_CLASS@, "managedObjectFromAddress"@),
        !is_wide_method(POINTER_CLASS@, "erasedAddress"@),
        !is_wide_method(POINTER_CLASS@, "fromErasedAddress"@),
        !is_wide_method(POINTER_CLASS@, "encodedAddress"@),
        !is_wide_method(POINTER_CLASS@, "fromEncodedAddress"@),
        !is_wide_method(POINTER_CLASS@, "fromAddress"@),
{
    reveal(is_wide_method);
    reveal_strlit("managedObjectAddress");
    reveal_strlit("managedObjectFromAddress");
    reveal_strlit("erasedAddress");
    reveal_strlit("fromErasedAddress");
    reveal_strlit("encodedAddress");
    reveal_strlit("fromEncodedAddress");
    reveal_strlit("fromAddress");
    reveal_strlit("integer128Byte");
    reveal_strlit("u128FromBytes");
    reveal_strlit("i128FromBytes");
    assert("integer128Byte"@.len() == 14 && "integer128Byte"@[0] == 'i');
    assert("u128FromBytes"@.len() == 13 && "u128FromBytes"@[0] == 'u');
    assert("i128FromBytes"@.len() == 13 && "i128FromBytes"@[0] == 'i');
    assert("encodedAddress"@[0] == 'e' && "erasedAddress"@[0] == 'e');
}

/// An object that is kept beside the bytes is loaded from where it was stored.
pub proof fn stored_object_is_loaded(
    source: OperandModel,
    target_ty: TypeModel,
    storage: UnionStorageModel,
    base_offset: usize,
    code: CodeModel,
    from: nat,
    first: Machine,
    m: Machine,
    start: u64,
    value: Value,
) -> (n: Machine)
    requires
        from <= code.instructions.len(),
        executed(first, code.instructions, from) == Some(m),
        has_room(m, storage, code.temps, start, base_offset + 1),
        code.temps + 4 <= usize::MAX,
        full_value(m, source) == Some(value),
        !(value is Number),
        is_settled(source, code.temps),
        target_ty is Class || target_ty is Interface,
    ensures
        ({
            let stored = stored_object(source, storage, base_offset, code);
            let (after, result) = loaded_object(target_ty, storage, base_offset, stored);
            &&& executed(first, after.instructions, from) == Some(n)
            &&& full_value(n, result) == Some(value)
            &&& n.arrays == m.arrays
        }),
{
    reveal(stored_object);
    reveal(loaded_object);
    reveal_strlit("union_object");
    reveal_strlit("union_typed_object");
    let (code1, position) = byte_position(storage, base_offset, code);
    let m1 = position_is_computed(
        storage,
        base_offset,
        code,
        from,
        first,
        m,
        start,
        base_offset + 1,
    );
    value_is_kept(m, m1, code.temps, source);
    let store = stores_element(storage.objects_var, position, source);
    let code2 = emit(code1, store);
    let place = (start + base_offset) as int;
    let m2 = slot_filled(m1, storage.objects_var, place, value);
    one_more_step(first, code1, from, store);
    assert(stepped(m1, store) == Some(m2));
    kept_by_nothing(m1, m2, code1.temps);
    kept_by_both(m, m1, m2, code.temps, code1.temps);
    room_is_kept(m, m2, storage, code.temps, code2.temps, start, base_offset + 1);
    let (code3, again) = byte_position(storage, base_offset, code2);
    let m3 = position_is_computed(
        storage,
        base_offset,
        code2,
        from,
        first,
        m2,
        start,
        base_offset + 1,
    );
    let (code4, object_dest) = fresh(code3, "union_object"@);
    let read = reads_element(object_dest, variable(storage.objects_var, object_array()), again);
    let code5 = emit(code4, read);
    let m5 = value_assigned(m3, object_dest, value);
    one_more_step(first, code4, from, read);
    assert(stepped(m3, read) == Some(m5));
    if target_ty == object_class() {
        m5
    } else {
        let (code6, typed_dest) = fresh(code5, "union_typed_object"@);
        let cast = converts(variable(object_dest, object_class()), target_ty, typed_dest);
        one_more_step(first, code6, from, cast);
        let n = value_assigned(m5, typed_dest, value);
        assert(stepped(m5, cast) == Some(n));
        n
    }
}

proof fn zeros_are_stored(
    begin: usize,
    to: nat,
    storage: UnionStorageModel,
    base_offset: usize,
    code: CodeModel,
    from: nat,
    first: Machine,
    m: Machine,
    start: u64,
) -> (n: Machine)
    requires
        begin <= to,
        from <= code.instructions.len(),
        executed(first, code.instructions, from) == Some(m),
        has_room(m, storage, code.temps, start, base_offset + to),
        code.temps + to <= usize::MAX,
    ensures
        ({
            let after = zeroed_bytes(begin, to, storage, base_offset, code);
            let old_bytes = m.arrays[storage.bytes_var];
            let new_bytes = n.arrays[storage.bytes_var];
            &&& executed(first, after.instructions, from) == Some(n)
            &&& new_bytes.len() == old_bytes.len()
            &&& forall|i: int|
                #![trigger new_bytes[i]]
                0 <= i < new_bytes.len() ==> new_bytes[i] == (if start + base_offset + begin <= i
                    < start + base_offset + to {
                    0
                } else {
                    old_bytes[i]
                })
            &&& n.arrays == m.arrays.insert(storage.bytes_var, new_bytes)
            &&& kept(m, n, code.temps)
            &&& goes_on(code, after, to as int)
        }),
    decreases to,
{
    reveal(zeroed_bytes);
    if to <= begin {
        kept_by_nothing(m, m, code.temps);
        assert(m.arrays.insert(storage.bytes_var, m.arrays[storage.bytes_var]) =~= m.arrays);
        m
    } else {
        reveal(zeroed_byte);
        let less = (to - 1) as nat;
        let index = (to - 1) as usize;
        let length = base_offset + to;
        assert(has_room(m, storage, code.temps, start, base_offset + less));
        let before = zeros_are_stored(
            begin,
            less,
            storage,
            base_offset,
            code,
            from,
            first,
            m,
            start,
        );
        let code1 = zeroed_bytes(begin, less, storage, base_offset, code);
        room_is_kept(m, before, storage, code.temps, code1.temps, start, length);
        let relative_offset = offset_sum(base_offset, index);
        let (code2, position) = byte_position(storage, relative_offset, code1);
        let m2 = position_is_computed(
            storage,
            relative_offset,
            code1,
            from,
            first,
            before,
            start,
            length,
        );
        let store = stores_element(storage.bytes_var, position, i8_value(0));
        one_more_step(first, code2, from, store);
        let n = byte_replaced(m2, storage.bytes_var, start + base_offset + index, 0);
        masked_byte(0);
        assert(stepped(m2, store) == Some(n));
        kept_by_nothing(m2, n, code2.temps);
        kept_by_both(before, m2, n, code1.temps, code2.temps);
        kept_by_both(m, before, n, code.temps, code1.temps);
        assert(n.arrays =~= m.arrays.insert(storage.bytes_var, n.arrays[storage.bytes_var]));
        n
    }
}

/// The code that stores an object that the runtime keeps leaves its address in the bytes, least
/// significant byte first, zeros behind it as far as the type reaches, and the object beside them.
pub proof fn managed_object_is_stored(
    source: OperandModel,
    size: usize,
    storage: UnionStorageModel,
    base_offset: usize,
    code: CodeModel,
    from: nat,
    first: Machine,
    m: Machine,
    start: u64,
    address: u64,
) -> (n: Machine)
    requires
        size >= 8,
        from <= code.instructions.len(),
        executed(first, code.instructions, from) == Some(m),
        has_room(m, storage, code.temps, start, base_offset + size),
        code.temps + 34 + size <= usize::MAX,
        full_value(m, source) == Some(Value::Managed { address }),
        !is_numeric(operand_type(source)),
        is_settled(source, code.temps),
    ensures
        ({
            let after = stored_managed_object(source, size, storage, base_offset, code);
            let old_bytes = m.arrays[storage.bytes_var];
            let new_bytes = n.arrays[storage.bytes_var];
            let at = start + base_offset;
            &&& executed(first, after.instructions, from) == Some(n)
            &&& new_bytes.len() == old_bytes.len()
            &&& number_at(new_bytes, at, 8) == address
            &&& forall|i: int|
                0 <= i < new_bytes.len() && at + 8 <= i < at + size ==> #[trigger] new_bytes[i] == 0
            &&& forall|i: int|
                0 <= i < new_bytes.len() && !(at <= i < at + size) ==> #[trigger] new_bytes[i]
                    == old_bytes[i]
            &&& n.arrays == m.arrays.insert(storage.bytes_var, new_bytes)
            &&& n.slots.contains_key(storage.objects_var)
            &&& n.slots[storage.objects_var].contains_key(at)
            &&& n.slots[storage.objects_var][at] == (Value::Managed { address })
            &&& kept(m, n, code.temps)
            &&& goes_on(code, after, 34 + size)
        }),
{
    reveal(stored_managed_object);
    reveal(object_address);
    reveal(stored_object);
    reveal(is_bit_conversion);
    reveal(is_address_method);
    reveal(args1);
    address_names_differ();
    reveal_strlit("union_managed_object_address");
    let at = start + base_offset;
    let old_bytes = m.arrays[storage.bytes_var];
    let (taken, address_dest) = fresh(code, "union_managed_object_address"@);
    let call = calls_static(
        address_dest,
        POINTER_CLASS@,
        "managedObjectAddress"@,
        static_method(params1("value"@, object_class()), Type::U64),
        args1(source),
    );
    let code1 = emit(taken, call);
    let m1 = assigned(m, address_dest, address);
    one_more_step(first, taken, from, call);
    assert(stepped(m, call) == Some(m1));
    assignment_keeps(m, "union_managed_object_address"@, code.temps, address);
    taken_is_settled("union_managed_object_address"@, code.temps, code1.temps);
    room_is_kept(m, m1, storage, code.temps, code1.temps, start, base_offset + size);
    let bits = variable(address_dest, Type::U64);
    assert(has_room(m1, storage, code1.temps, start, base_offset + 8));
    let m2 = bits_are_stored(
        bits,
        Type::U64,
        8,
        storage,
        base_offset,
        code1,
        from,
        first,
        m1,
        start,
        address,
    );
    let code2 = stored_bits(bits, Type::U64, 8, storage, base_offset, code1);
    kept_by_both(m, m1, m2, code.temps, code1.temps);
    room_is_kept(m, m2, storage, code.temps, code2.temps, start, base_offset + size);
    let m3 = zeros_are_stored(
        8,
        size as nat,
        storage,
        base_offset,
        code2,
        from,
        first,
        m2,
        start,
    );
    let code3 = zeroed_bytes(8, size as nat, storage, base_offset, code2);
    kept_by_both(m, m2, m3, code.temps, code2.temps);
    room_is_kept(m, m3, storage, code.temps, code3.temps, start, base_offset + size);
    let (code4, position) = byte_position(storage, base_offset, code3);
    let m4 = position_is_computed(
        storage,
        base_offset,
        code3,
        from,
        first,
        m3,
        start,
        base_offset + size,
    );
    kept_by_both(m, m3, m4, code.temps, code3.temps);
    value_is_kept(m, m4, code.temps, source);
    let store = stores_element(storage.objects_var, position, source);
    one_more_step(first, code4, from, store);
    let value = Value::Managed { address };
    let n = slot_filled(m4, storage.objects_var, at, value);
    assert(stepped(m4, store) == Some(n));
    kept_by_nothing(m4, n, code4.temps);
    kept_by_both(m, m4, n, code.temps, code4.temps);
    number_is_put_together(old_bytes, at, address, 8);
    let new_bytes = n.arrays[storage.bytes_var];
    let written = with_number(old_bytes, at, address, 8);
    number_is_local(written, new_bytes, at, 8);
    assert(n.arrays =~= m.arrays.insert(storage.bytes_var, new_bytes));
    n
}

/// A number in an array depends on its own bytes only.
proof fn number_is_local(a: Seq<u8>, b: Seq<u8>, start: int, size: nat)
    requires
        forall|i: int| start <= i < start + size ==> #[trigger] a[i] == b[i],
    ensures
        number_at(a, start, size) == number_at(b, start, size),
    decreases size,
{
    if size > 0 {
        number_is_local(a, b, start, (size - 1) as nat);
        assert(a[start + size - 1] == b[start + size - 1]);
    }
}

/// The code that loads an object that the runtime keeps gives the object whose address stands in
/// the bytes.
pub proof fn managed_object_is_loaded(
    target_ty: TypeModel,
    size: usize,
    storage: UnionStorageModel,
    base_offset: usize,
    code: CodeModel,
    from: nat,
    first: Machine,
    m: Machine,
    start: u64,
) -> (n: Machine)
    requires
        size >= 8,
        from <= code.instructions.len(),
        executed(first, code.instructions, from) == Some(m),
        has_room(m, storage, code.temps, start, base_offset + 8),
        code.temps + 50 <= usize::MAX,
        !is_numeric(target_ty),
    ensures
        ({
            let (after, result) = loaded_managed_object(
                target_ty,
                size,
                storage,
                base_offset,
                code,
            );
            let bytes = m.arrays[storage.bytes_var];
            &&& executed(first, after.instructions, from) == Some(n)
            &&& full_value(n, result) == Some(
                Value::Managed { address: number_at(bytes, start + base_offset, 8) },
            )
            &&& operand_type(result) == target_ty
            &&& n.arrays == m.arrays
        }),
{
    reveal(loaded_managed_object);
    reveal(addressed_object);
    reveal(is_bit_conversion);
    reveal(is_address_method);
    reveal(args1);
    address_names_differ();
    reveal_strlit("union_managed_object");
    reveal_strlit("union_typed_managed_object");
    let m1 = bits_are_loaded(Type::I64, 8, storage, base_offset, code, from, first, m, start);
    let (code1, bits) = loaded_bits(Type::I64, 8, storage, base_offset, code);
    let address = number_at(m.arrays[storage.bytes_var], start + base_offset, 8);
    let (taken, object_dest) = fresh(code1, "union_managed_object"@);
    let call = calls_static(
        object_dest,
        POINTER_CLASS@,
        "managedObjectFromAddress"@,
        static_method(params1("address"@, Type::U64), object_class()),
        args1(bits),
    );
    let code2 = emit(taken, call);
    let value = Value::Managed { address };
    let m2 = value_assigned(m1, object_dest, value);
    one_more_step(first, taken, from, call);
    assert(stepped(m1, call) == Some(m2));
    if target_ty == object_class() {
        m2
    } else {
        let (code3, typed_dest) = fresh(code2, "union_typed_managed_object"@);
        let cast = converts(variable(object_dest, object_class()), target_ty, typed_dest);
        one_more_step(first, code3, from, cast);
        let n = value_assigned(m2, typed_dest, value);
        assert(stepped(m2, cast) == Some(n));
        n
    }
}

/// Whether a type is a thin pointer of eight bytes to a type of a known size, or to a trait object.
pub open spec fn is_thin_pointer(ty: RustType) -> bool {
    &&& pointee_of(ty) matches Some(pointee)
    &&& size_of(ty) == Ok::<usize, Text>(8)
    &&& lowered(ty) is Pointer
    &&& (is_dynamic(pointee) || size_of(pointee) is Ok)
}

/// Whether a pointer has an address and is seen as a pointer of a type: with the size and the codec
/// of what that points to, and with neither of them where that is a trait object.
pub open spec fn is_seen_as(
    value: Value,
    ty: RustType,
    address: u64,
    view_codec: Option<Text>,
) -> bool {
    &&& value matches Value::Pointer { address: found, view_size: size, view_codec: codec }
    &&& found == address
    &&& if is_dynamic(pointee_of(ty)->0) {
        size is None && codec is None
    } else {
        size == Some(size_of(pointee_of(ty)->0)->Ok_0 as u64) && codec == view_codec
    }
}

/// Where the address of a pointer is taken: before that, the place in the bytes is computed where
/// the codec of the pointer needs it.
spec fn before_address(
    storage: UnionStorageModel,
    base_offset: usize,
    with_place: bool,
    code: CodeModel,
) -> (CodeModel, OperandModel) {
    if with_place {
        byte_position(storage, base_offset, code)
    } else {
        (code, storage.base_offset)
    }
}

/// The call that takes the address of a pointer.
spec fn takes_address(
    ty: RustType,
    source: OperandModel,
    storage: UnionStorageModel,
    position: OperandModel,
    codec: Option<Text>,
    dest: Text,
) -> InstructionModel {
    if is_dynamic(pointee_of(ty)->0) {
        calls_static(
            dest,
            POINTER_CLASS@,
            "erasedAddress"@,
            static_method(params1("pointer"@, lowered(ty)), Type::U64),
            args1(source),
        )
    } else if codec is Some {
        calls_static(
            dest,
            POINTER_CLASS@,
            "encodedAddress"@,
            encoded_address(lowered(ty)),
            args5(
                source,
                variable(storage.bytes_var, byte_array()),
                position,
                i32_value(8),
                text_value(codec->0),
            ),
        )
    } else {
        calls_static(
            dest,
            POINTER_CLASS@,
            "encodedAddress"@,
            static_method(params2("pointer"@, lowered(ty), "owner"@, object_class()), Type::U64),
            args2(source, variable(storage.bytes_var, byte_array())),
        )
    }
}

proof fn pointer_is_taken_apart(
    ty: RustType,
    source: OperandModel,
    storage: UnionStorageModel,
    base_offset: usize,
    code: CodeModel,
    defs: DefinitionsModel,
) -> (codec: Option<Text>)
    requires
        is_thin_pointer(ty),
    ensures
        ({
            let (after, _, outcome) = stored_pointer(ty, source, storage, base_offset, code, defs);
            let with_place = !is_dynamic(pointee_of(ty)->0) && codec is Some;
            let (code1, position) = before_address(storage, base_offset, with_place, code);
            let (taken, dest) = fresh(code1, "union_pointer_address"@);
            let call = takes_address(ty, source, storage, position, codec, dest);
            &&& outcome == Ok::<(), Text>(())
            &&& after == stored_bits(
                variable(dest, Type::U64),
                Type::U64,
                8,
                storage,
                base_offset,
                emit(taken, call),
            )
        }),
{
    let (_, codec) = builtin_codec(ty, type_defined(ty, defs));
    codec
}

proof fn address_is_taken(
    ty: RustType,
    source: OperandModel,
    storage: UnionStorageModel,
    position: OperandModel,
    codec: Option<Text>,
    dest: Text,
    m: Machine,
    address: u64,
    view_size: Option<u64>,
    view_codec: Option<Text>,
)
    requires
        full_value(m, source) == Some(Value::Pointer { address, view_size, view_codec }),
        !is_dynamic(pointee_of(ty)->0) && codec is Some ==> is_part(
            m,
            variable(storage.bytes_var, byte_array()),
            position,
            i32_value(8),
        ),
    ensures
        stepped(m, takes_address(ty, source, storage, position, codec, dest)) == Some(
            assigned(m, dest, address),
        ),
{
    reveal(is_bit_conversion);
    reveal(is_address_method);
    reveal(args1);
    reveal(args2);
    reveal(args5);
    address_names_differ();
}

/// The code that stores a pointer leaves its address in eight bytes, least significant byte first.
pub proof fn pointer_is_stored(
    ty: RustType,
    source: OperandModel,
    storage: UnionStorageModel,
    base_offset: usize,
    code: CodeModel,
    defs: DefinitionsModel,
    from: nat,
    first: Machine,
    m: Machine,
    start: u64,
    address: u64,
    view_size: Option<u64>,
    codec: Option<Text>,
) -> (n: Machine)
    requires
        is_thin_pointer(ty),
        from <= code.instructions.len(),
        executed(first, code.instructions, from) == Some(m),
        has_room(m, storage, code.temps, start, base_offset + 8),
        code.temps + 34 <= usize::MAX,
        full_value(m, source) == Some(Value::Pointer { address, view_size, view_codec: codec }),
        is_settled(source, code.temps),
    ensures
        ({
            let (after, _, outcome) = stored_pointer(ty, source, storage, base_offset, code, defs);
            let old_bytes = m.arrays[storage.bytes_var];
            &&& outcome == Ok::<(), Text>(())
            &&& executed(first, after.instructions, from) == Some(n)
            &&& n.arrays == m.arrays.insert(
                storage.bytes_var,
                with_number(old_bytes, start + base_offset, address, 8),
            )
            &&& kept(m, n, code.temps)
            &&& goes_on(code, after, 34)
        }),
{
    let pointer_codec = pointer_is_taken_apart(ty, source, storage, base_offset, code, defs);
    let (after, _, _) = stored_pointer(ty, source, storage, base_offset, code, defs);
    address_is_stored(
        ty,
        source,
        storage,
        base_offset,
        code,
        pointer_codec,
        from,
        first,
        m,
        start,
        address,
        view_size,
        codec,
    )
}

proof fn address_is_stored(
    ty: RustType,
    source: OperandModel,
    storage: UnionStorageModel,
    base_offset: usize,
    code: CodeModel,
    pointer_codec: Option<Text>,
    from: nat,
    first: Machine,
    m: Machine,
    start: u64,
    address: u64,
    view_size: Option<u64>,
    codec: Option<Text>,
) -> (n: Machine)
    requires
        from <= code.instructions.len(),
        executed(first, code.instructions, from) == Some(m),
        has_room(m, storage, code.temps, start, base_offset + 8),
        code.temps + 34 <= usize::MAX,
        full_value(m, source) == Some(Value::Pointer { address, view_size, view_codec: codec }),
        is_settled(source, code.temps),
    ensures
        ({
            let with_place = !is_dynamic(pointee_of(ty)->0) && pointer_codec is Some;
            let (code1, position) = before_address(storage, base_offset, with_place, code);
            let (taken, dest) = fresh(code1, "union_pointer_address"@);
            let call = takes_address(ty, source, storage, position, pointer_codec, dest);
            let after = stored_bits(
                variable(dest, Type::U64),
                Type::U64,
                8,
                storage,
                base_offset,
                emit(taken, call),
            );
            &&& executed(first, after.instructions, from) == Some(n)
            &&& n.arrays == m.arrays.insert(
                storage.bytes_var,
                with_number(m.arrays[storage.bytes_var], start + base_offset, address, 8),
            )
            &&& kept(m, n, code.temps)
            &&& goes_on(code, after, 34)
        }),
{
    reveal_strlit("union_pointer_address");
    let with_place = !is_dynamic(pointee_of(ty)->0) && pointer_codec is Some;
    let (code1, position) = before_address(storage, base_offset, with_place, code);
    let m1 = if with_place {
        position_is_computed(storage, base_offset, code, from, first, m, start, base_offset + 8)
    } else {
        kept_by_nothing(m, m, code.temps);
        m
    };
    value_is_kept(m, m1, code.temps, source);
    let (taken, address_dest) = fresh(code1, "union_pointer_address"@);
    let call = takes_address(ty, source, storage, position, pointer_codec, address_dest);
    address_is_taken(
        ty,
        source,
        storage,
        position,
        pointer_codec,
        address_dest,
        m1,
        address,
        view_size,
        codec,
    );
    let code2 = emit(taken, call);
    let m2 = assigned(m1, address_dest, address);
    one_more_step(first, taken, from, call);
    assignment_keeps(m1, "union_pointer_address"@, code1.temps, address);
    kept_by_both(m, m1, m2, code.temps, code1.temps);
    taken_is_settled("union_pointer_address"@, code1.temps, code2.temps);
    room_is_kept(m, m2, storage, code.temps, code2.temps, start, base_offset + 8);
    let bits = variable(address_dest, Type::U64);
    let n = bits_are_stored(
        bits,
        Type::U64,
        8,
        storage,
        base_offset,
        code2,
        from,
        first,
        m2,
        start,
        address,
    );
    kept_by_both(m, m2, n, code.temps, code2.temps);
    n
}

/// The call that makes a pointer of an address.
spec fn makes_pointer(
    ty: RustType,
    bits: OperandModel,
    size: usize,
    seen: Option<Text>,
    codec: Option<Text>,
    dest: Text,
) -> InstructionModel {
    if is_dynamic(pointee_of(ty)->0) {
        calls_static(
            dest,
            POINTER_CLASS@,
            "fromErasedAddress"@,
            static_method(params1("address"@, Type::U64), lowered(ty)),
            args1(bits),
        )
    } else if codec is Some {
        calls_static(
            dest,
            POINTER_CLASS@,
            "fromEncodedAddress"@,
            from_encoded_address(lowered(ty)),
            args4(bits, u64_value(size as u64), codec_value(seen), text_value(codec->0)),
        )
    } else {
        calls_static(
            dest,
            POINTER_CLASS@,
            "fromAddress"@,
            from_address(lowered(ty)),
            args3(bits, u64_value(size as u64), codec_value(seen)),
        )
    }
}

proof fn pointer_is_put_together(
    ty: RustType,
    storage: UnionStorageModel,
    base_offset: usize,
    code: CodeModel,
    defs: DefinitionsModel,
) -> (codec: Option<Text>)
    requires
        is_thin_pointer(ty),
    ensures
        ({
            let (after, _, outcome) = loaded_pointer(ty, storage, base_offset, code, defs);
            let (code1, bits) = loaded_bits(Type::I64, 8, storage, base_offset, code);
            let (taken, dest) = fresh(code1, "union_pointer_value"@);
            let pointee = pointee_of(ty)->0;
            let ready = builtin_codec(ty, type_defined(ty, defs)).0;
            let call = makes_pointer(
                ty,
                bits,
                size_of(pointee)->Ok_0,
                view_codec(pointee, ready).1,
                codec,
                dest,
            );
            &&& outcome == Ok::<OperandModel, Text>(variable(dest, lowered(ty)))
            &&& after == emit(taken, call)
        }),
{
    let (_, codec) = builtin_codec(ty, type_defined(ty, defs));
    codec
}

proof fn pointer_is_made(
    ty: RustType,
    bits: OperandModel,
    size: usize,
    seen: Option<Text>,
    codec: Option<Text>,
    dest: Text,
    m: Machine,
    address: u64,
) -> (value: Value)
    requires
        value_of(m, bits) == Some(address),
        !is_dynamic(pointee_of(ty)->0) ==> size_of(pointee_of(ty)->0) == Ok::<usize, Text>(size),
    ensures
        stepped(m, makes_pointer(ty, bits, size, seen, codec, dest)) == Some(
            value_assigned(m, dest, value),
        ),
        is_seen_as(value, ty, address, seen),
{
    reveal(is_bit_conversion);
    reveal(is_address_method);
    reveal(args1);
    reveal(args3);
    reveal(args4);
    address_names_differ();
    if is_dynamic(pointee_of(ty)->0) {
        Value::Pointer { address, view_size: None, view_codec: None }
    } else {
        Value::Pointer { address, view_size: Some(size as u64), view_codec: seen }
    }
}

/// The code that loads a pointer gives one with the address that stands in eight bytes, seen as a
/// pointer of the type.
pub proof fn pointer_is_loaded(
    ty: RustType,
    storage: UnionStorageModel,
    base_offset: usize,
    code: CodeModel,
    defs: DefinitionsModel,
    from: nat,
    first: Machine,
    m: Machine,
    start: u64,
) -> (n: Machine)
    requires
        is_thin_pointer(ty),
        from <= code.instructions.len(),
        executed(first, code.instructions, from) == Some(m),
        has_room(m, storage, code.temps, start, base_offset + 8),
        code.temps + 50 <= usize::MAX,
    ensures
        ({
            let (after, _, outcome) = loaded_pointer(ty, storage, base_offset, code, defs);
            let bytes = m.arrays[storage.bytes_var];
            let ready = builtin_codec(ty, type_defined(ty, defs)).0;
            &&& outcome matches Ok(result)
            &&& operand_type(result) == lowered(ty)
            &&& executed(first, after.instructions, from) == Some(n)
            &&& full_value(n, result) matches Some(value)
            &&& is_seen_as(
                value,
                ty,
                number_at(bytes, start + base_offset, 8),
                view_codec(pointee_of(ty)->0, ready).1,
            )
            &&& n.arrays == m.arrays
        }),
{
    let codec = pointer_is_put_together(ty, storage, base_offset, code, defs);
    let pointee = pointee_of(ty)->0;
    let ready = builtin_codec(ty, type_defined(ty, defs)).0;
    let seen = view_codec(pointee, ready).1;
    let size = size_of(pointee)->Ok_0;
    let (_, _, outcome) = loaded_pointer(ty, storage, base_offset, code, defs);
    let m1 = bits_are_loaded(Type::I64, 8, storage, base_offset, code, from, first, m, start);
    let (code1, bits) = loaded_bits(Type::I64, 8, storage, base_offset, code);
    let address = number_at(m.arrays[storage.bytes_var], start + base_offset, 8);
    let (taken, dest) = fresh(code1, "union_pointer_value"@);
    let call = makes_pointer(ty, bits, size, seen, codec, dest);
    let value = pointer_is_made(ty, bits, size, seen, codec, dest, m1, address);
    one_more_step(first, taken, from, call);
    value_assigned(m1, dest, value)
}

/// A pointer that is stored and loaded again has the same address.
pub proof fn stored_pointer_is_loaded(
    ty: RustType,
    source: OperandModel,
    storage: UnionStorageModel,
    base_offset: usize,
    code: CodeModel,
    defs: DefinitionsModel,
    from: nat,
    first: Machine,
    m: Machine,
    start: u64,
    address: u64,
    view_size: Option<u64>,
    codec: Option<Text>,
) -> (n: Machine)
    requires
        is_thin_pointer(ty),
        from <= code.instructions.len(),
        executed(first, code.instructions, from) == Some(m),
        has_room(m, storage, code.temps, start, base_offset + 8),
        code.temps + 84 <= usize::MAX,
        full_value(m, source) == Some(Value::Pointer { address, view_size, view_codec: codec }),
        is_settled(source, code.temps),
    ensures
        ({
            let (stored, defs1, _) = stored_pointer(ty, source, storage, base_offset, code, defs);
            let (after, _, outcome) = loaded_pointer(ty, storage, base_offset, stored, defs1);
            let ready = builtin_codec(ty, type_defined(ty, defs1)).0;
            &&& outcome matches Ok(result)
            &&& executed(first, after.instructions, from) == Some(n)
            &&& full_value(n, result) matches Some(value)
            &&& is_seen_as(value, ty, address, view_codec(pointee_of(ty)->0, ready).1)
        }),
{
    let (stored, defs1, _) = stored_pointer(ty, source, storage, base_offset, code, defs);
    let before = pointer_is_stored(
        ty,
        source,
        storage,
        base_offset,
        code,
        defs,
        from,
        first,
        m,
        start,
        address,
        view_size,
        codec,
    );
    room_is_kept(m, before, storage, code.temps, stored.temps, start, base_offset + 8);
    number_is_put_together(m.arrays[storage.bytes_var], start + base_offset, address, 8);
    pointer_is_loaded(ty, storage, base_offset, stored, defs1, from, first, before, start)
}

/// Whether a value is a 128-bit floating-point number with the given halves.
pub open spec fn is_quad(value: Option<Value>, high: u64, low: u64) -> bool {
    value == Some(
        Value::Object {
            class_name: "org/rustlang/runtime/F128"@,
            parts: seq![Value::Number { bits: high }, Value::Number { bits: low }],
        },
    )
}

proof fn half_is_read(
    source: OperandModel,
    method_name: Text,
    code: CodeModel,
    from: nat,
    first: Machine,
    m: Machine,
    high: u64,
    low: u64,
) -> (n: Machine)
    requires
        method_name == "highBits"@ || method_name == "lowBits"@,
        from <= code.instructions.len(),
        executed(first, code.instructions, from) == Some(m),
        code.temps < usize::MAX,
        is_quad(full_value(m, source), high, low),
    ensures
        ({
            let (after, bits) = f128_half(source, method_name, code);
            &&& executed(first, after.instructions, from) == Some(n)
            &&& value_of(n, bits) == Some(if method_name == "highBits"@ { high } else { low })
            &&& operand_type(bits) == Type::<Text>::I64
            &&& is_settled(bits, after.temps)
            &&& n.arrays == m.arrays
            &&& kept(m, n, code.temps)
            &&& goes_on(code, after, 1)
        }),
{
    reveal(f128_half);
    reveal(args0);
    reveal_strlit("union_f128_bits");
    reveal_strlit("highBits");
    reveal_strlit("lowBits");
    assert("highBits"@.len() == 8 && "lowBits"@.len() == 7);
    let (taken, bits_dest) = fresh(code, "union_f128_bits"@);
    let call = calls_virtual(
        bits_dest,
        F128_CLASS@,
        method_name,
        instance_method(params0(), Type::I64),
        args0(),
        source,
    );
    let bits = if method_name == "highBits"@ {
        high
    } else {
        low
    };
    let n = assigned(m, bits_dest, bits);
    one_more_step(first, taken, from, call);
    assert(stepped(m, call) == Some(n));
    assignment_keeps(m, "union_f128_bits"@, code.temps, bits);
    taken_is_settled("union_f128_bits"@, code.temps, taken.temps);
    n
}

/// The code that stores a 128-bit floating-point number leaves its low half in the first eight
/// bytes and its high half in the eight behind them, least significant byte first.
pub proof fn quad_is_stored(
    ty: RustType,
    source: OperandModel,
    storage: UnionStorageModel,
    base_offset: usize,
    code: CodeModel,
    defs: DefinitionsModel,
    from: nat,
    first: Machine,
    m: Machine,
    start: u64,
    high: u64,
    low: u64,
) -> (n: Machine)
    requires
        ty.kind == TypeKind::Float(FloatKind::F128),
        size_of(ty) == Ok::<usize, Text>(16),
        from <= code.instructions.len(),
        executed(first, code.instructions, from) == Some(m),
        has_room(m, storage, code.temps, start, base_offset + 16),
        base_offset + 16 <= usize::MAX,
        code.temps + 66 <= usize::MAX,
        is_quad(full_value(m, source), high, low),
        is_settled(source, code.temps),
    ensures
        ({
            let (after, defs1, outcome) = stored(ty, source, storage, base_offset, code, defs);
            let at = start + base_offset;
            &&& outcome == Ok::<(), Text>(())
            &&& defs1 == defs
            &&& executed(first, after.instructions, from) == Some(n)
            &&& n.arrays == m.arrays.insert(
                storage.bytes_var,
                with_number(
                    with_number(m.arrays[storage.bytes_var], at, low, 8),
                    at + 8,
                    high,
                    8,
                ),
            )
            &&& kept(m, n, code.temps)
            &&& goes_on(code, after, 66)
        }),
{
    reveal_with_fuel(stored, 2);
    reveal_with_fuel(stored_thin, 2);
    reveal_with_fuel(fat_codec, 2);
    reveal_strlit("highBits");
    reveal_strlit("lowBits");
    assert("highBits"@.len() == 8 && "lowBits"@.len() == 7);
    let m1 = half_is_read(source, "lowBits"@, code, from, first, m, high, low);
    let (code1, low_bits) = f128_half(source, "lowBits"@, code);
    room_is_kept(m, m1, storage, code.temps, code1.temps, start, base_offset + 16);
    assert(has_room(m1, storage, code1.temps, start, base_offset + 8));
    let m2 = bits_are_stored(
        low_bits,
        Type::I64,
        8,
        storage,
        base_offset,
        code1,
        from,
        first,
        m1,
        start,
        low,
    );
    let code2 = stored_bits(low_bits, Type::I64, 8, storage, base_offset, code1);
    kept_by_both(m, m1, m2, code.temps, code1.temps);
    value_is_kept(m, m2, code.temps, source);
    let m3 = half_is_read(source, "highBits"@, code2, from, first, m2, high, low);
    let (code3, high_bits) = f128_half(source, "highBits"@, code2);
    kept_by_both(m, m2, m3, code.temps, code2.temps);
    room_is_kept(m, m3, storage, code.temps, code3.temps, start, base_offset + 16);
    let second = offset_sum(base_offset, 8);
    let n = bits_are_stored(
        high_bits,
        Type::I64,
        8,
        storage,
        second,
        code3,
        from,
        first,
        m3,
        start,
        high,
    );
    kept_by_both(m, m3, n, code.temps, code3.temps);
    assert(n.arrays =~= m.arrays.insert(storage.bytes_var, n.arrays[storage.bytes_var]));
    n
}

/// The code that loads a 128-bit floating-point number makes one of the two halves in the bytes:
/// the low half comes first.
pub proof fn quad_is_loaded(
    ty: RustType,
    storage: UnionStorageModel,
    base_offset: usize,
    code: CodeModel,
    defs: DefinitionsModel,
    from: nat,
    first: Machine,
    m: Machine,
    start: u64,
) -> (n: Machine)
    requires
        ty.kind == TypeKind::Float(FloatKind::F128),
        size_of(ty) == Ok::<usize, Text>(16),
        from <= code.instructions.len(),
        executed(first, code.instructions, from) == Some(m),
        has_room(m, storage, code.temps, start, base_offset + 16),
        base_offset + 16 <= usize::MAX,
        code.temps + 98 <= usize::MAX,
    ensures
        ({
            let (after, defs1, outcome) = loaded(ty, storage, base_offset, code, defs);
            let bytes = m.arrays[storage.bytes_var];
            let at = start + base_offset;
            &&& outcome matches Ok(result)
            &&& defs1 == defs
            &&& executed(first, after.instructions, from) == Some(n)
            &&& is_quad(
                full_value(n, result),
                number_at(bytes, at + 8, 8),
                number_at(bytes, at, 8),
            )
            &&& n.arrays == m.arrays
        }),
{
    reveal_with_fuel(loaded, 2);
    reveal_with_fuel(loaded_thin, 2);
    reveal_with_fuel(fat_codec, 2);
    reveal(typed2);
    reveal_strlit("union_f128_value");
    let bytes = m.arrays[storage.bytes_var];
    let at = start + base_offset;
    let m1 = bits_are_loaded(Type::I64, 8, storage, base_offset, code, from, first, m, start);
    let (code1, low) = loaded_bits(Type::I64, 8, storage, base_offset, code);
    room_is_kept(m, m1, storage, code.temps, code1.temps, start, base_offset + 16);
    let second = offset_sum(base_offset, 8);
    let m2 = bits_are_loaded(Type::I64, 8, storage, second, code1, from, first, m1, start);
    let (code2, high) = loaded_bits(Type::I64, 8, storage, second, code1);
    value_is_kept(m1, m2, code1.temps, low);
    let (taken, dest) = fresh(code2, "union_f128_value"@);
    let make = makes_object(dest, F128_CLASS@, typed2(high, Type::I64, low, Type::I64));
    one_more_step(first, taken, from, make);
    let value = Value::Object {
        class_name: F128_CLASS@,
        parts: seq![
            Value::Number { bits: number_at(bytes, at + 8, 8) },
            Value::Number { bits: number_at(bytes, at, 8) },
        ],
    };
    let args = make->ConstructObject_args;
    assert(args.len() == 2 && args[0].0 == high && args[1].0 == low);
    assert(full_value(m2, high) is Some && full_value(m2, low) is Some);
    let n = stepped(m2, make)->0;
    assert(Seq::new(args.len(), |i: int| full_value(m2, args[i].0)->0) =~= value->parts);
    assert(n == value_assigned(m2, dest, value));
    n
}

/// A 128-bit floating-point number that is stored and loaded again is the same number.
pub proof fn stored_quad_is_loaded(
    ty: RustType,
    source: OperandModel,
    storage: UnionStorageModel,
    base_offset: usize,
    code: CodeModel,
    defs: DefinitionsModel,
    from: nat,
    first: Machine,
    m: Machine,
    start: u64,
    high: u64,
    low: u64,
) -> (n: Machine)
    requires
        ty.kind == TypeKind::Float(FloatKind::F128),
        size_of(ty) == Ok::<usize, Text>(16),
        from <= code.instructions.len(),
        executed(first, code.instructions, from) == Some(m),
        has_room(m, storage, code.temps, start, base_offset + 16),
        base_offset + 16 <= usize::MAX,
        code.temps + 164 <= usize::MAX,
        is_quad(full_value(m, source), high, low),
        is_settled(source, code.temps),
    ensures
        ({
            let (middle, defs1, _) = stored(ty, source, storage, base_offset, code, defs);
            let (after, _, outcome) = loaded(ty, storage, base_offset, middle, defs1);
            &&& outcome matches Ok(result)
            &&& executed(first, after.instructions, from) == Some(n)
            &&& is_quad(full_value(n, result), high, low)
        }),
{
    let (middle, defs1, _) = stored(ty, source, storage, base_offset, code, defs);
    let before = quad_is_stored(
        ty,
        source,
        storage,
        base_offset,
        code,
        defs,
        from,
        first,
        m,
        start,
        high,
        low,
    );
    room_is_kept(m, before, storage, code.temps, middle.temps, start, base_offset + 16);
    let bytes = m.arrays[storage.bytes_var];
    let at = start + base_offset;
    let lower = with_number(bytes, at, low, 8);
    let both = with_number(lower, at + 8, high, 8);
    number_is_put_together(bytes, at, low, 8);
    number_is_put_together(lower, at + 8, high, 8);
    number_is_local(lower, both, at, 8);
    quad_is_loaded(ty, storage, base_offset, middle, defs1, from, first, before, start)
}

} // verus!
