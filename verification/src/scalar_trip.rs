//! Numbers, characters and truth values keep their bits in the bytes of a union.
use crate::code::{
    CodeModel, DefinitionsModel, args1, calls_static, converts, emit, empty_code, fresh, i32_value,
    makes_array, object_class, params1, returns_value, static_method, temp_name,
};
use crate::execution::{
    Machine, array_made, assigned, assignment_keeps, decimal_is_digits, executed, is_address_method,
    is_bit_conversion, is_later, is_of, is_settled, is_wide_method, kept, kept_by_both,
    kept_by_nothing, narrowed, one_more_step, settled_for_longer, stepped, taken_is_settled,
    value_is_kept, value_of,
};
use crate::load::loaded;
use crate::oomir::{
    InstructionModel, OperandModel, SignatureModel, Text, Type, TypeModel, operand_type,
};
use crate::round_trip::{
    bits_are_loaded, bits_are_stored, bits_width, byte_at, goes_on, has_room, holds_bits, low_bytes,
    number_at, number_is_put_together, with_number,
};
use crate::rust_type::{
    FloatKind, IntKind, RustType, TypeKind, UintKind, at_least_one, lowered, size_of,
};
use crate::scalar::{loaded_scalar, scalar_bits, scalar_of_bits, stored_scalar};
use crate::store::stored;
use crate::text::decimal_text;
use crate::transmute::{
    ExactTransmuteHelperModel, byte_conversion, conversion, conversion_end, direct_conversion,
    exact_transmute, number_pointer, size_mismatch, source_value, target_value,
    unprovenanced_pointer,
};
use crate::union_class::jvm_number;
use crate::union_storage::{UnionStorageModel, bits_type, loaded_bits, storage_at_start};
use vstd::prelude::*;
use vstd::string::*;

verus! {

/// The size of the integers up to 64 bits, the floating-point numbers of 32 and 64 bits, the
/// characters and the truth values, in bytes.
pub open spec fn number_size(kind: TypeKind) -> Option<usize> {
    match kind {
        TypeKind::Bool => Some(1),
        TypeKind::Char => Some(4),
        TypeKind::Int(IntKind::I8) | TypeKind::Uint(UintKind::U8) => Some(1),
        TypeKind::Int(IntKind::I16) | TypeKind::Uint(UintKind::U16) => Some(2),
        TypeKind::Int(IntKind::I32) | TypeKind::Uint(UintKind::U32) => Some(4),
        TypeKind::Int(IntKind::I64) | TypeKind::Uint(UintKind::U64) => Some(8),
        TypeKind::Int(IntKind::Isize) | TypeKind::Uint(UintKind::Usize) => Some(8),
        TypeKind::Float(FloatKind::F32) => Some(4),
        TypeKind::Float(FloatKind::F64) => Some(8),
        _ => None,
    }
}

/// Whether a type is one of the integers up to 64 bits, the floating-point numbers of 32 and 64
/// bits, the characters and the truth values, with the size that it has on a machine of 64 bits.
pub open spec fn is_plain_number(ty: RustType) -> bool {
    number_size(ty.kind) is Some && size_of(ty) == Ok::<usize, Text>(number_size(ty.kind)->0)
}

/// The size of a number's type.
pub open spec fn number_bytes(ty: RustType) -> usize {
    number_size(ty.kind)->0
}

/// The methods of the platform are not those that take 128-bit integers or pointers apart.
proof fn platform_is_not_the_runtime()
    ensures
        forall|name: Text| !#[trigger] is_wide_method("java/lang/Float"@, name),
        forall|name: Text| !#[trigger] is_wide_method("java/lang/Double"@, name),
        forall|name: Text| !#[trigger] is_address_method("java/lang/Float"@, name),
        forall|name: Text| !#[trigger] is_address_method("java/lang/Double"@, name),
{
    reveal(is_wide_method);
    reveal(is_address_method);
    reveal_strlit("java/lang/Float");
    reveal_strlit("java/lang/Double");
    reveal_strlit("org/rustlang/runtime/Pointer");
    assert("java/lang/Float"@.len() == 15);
    assert("java/lang/Double"@.len() == 16);
    assert("org/rustlang/runtime/Pointer"@.len() == 28);
}

/// A number is determined by the bits of its type.
pub proof fn low_bytes_are_enough(ty: RustType, x: u64)
    requires
        is_plain_number(ty),
    ensures
        narrowed(lowered(ty), low_bytes(x, number_bytes(ty) as int)) == narrowed(lowered(ty), x),
{
    reveal_with_fuel(lowered, 2);
    assert(((1u64 << 8u64) - 1) as u64 == 0xff && ((1u64 << 16u64) - 1) as u64 == 0xffff && ((1u64
        << 32u64) - 1) as u64 == 0xffff_ffff) by (bit_vector);
    let b = x & 0xff;
    let h = x & 0xffff;
    let w = x & 0xffff_ffff;
    assert(b == x & 0xff ==> b & 1 == x & 1 && b & 0xff == x & 0xff && b << 56 == x << 56)
        by (bit_vector);
    assert(h == x & 0xffff ==> h & 0xffff == x & 0xffff && h << 48 == x << 48) by (bit_vector);
    assert(w == x & 0xffff_ffff ==> w & 0xffff_ffff == x & 0xffff_ffff && w << 32 == x << 32)
        by (bit_vector);
}

/// The first bytes of a number are the same before and behind an extension from 32 bits.
proof fn low_bytes_of_extended(x: u64, size: int)
    requires
        0 <= size <= 4,
    ensures
        low_bytes(narrowed(Type::I32, x), size) == low_bytes(x, size),
{
    let y = (((x << 32) as i64) >> 32) as u64;
    let s = (8 * size) as u64;
    assert(s <= 32 && y == (((x << 32) as i64) >> 32) as u64 ==> y & (((1u64 << s) - 1) as u64) == x
        & (((1u64 << s) - 1) as u64)) by (bit_vector);
}

/// An extension from 32 bits does not matter to a type of at most 32 bits.
proof fn narrowed_behind_extension(ty: TypeModel, x: u64)
    requires
        ty is I8 || ty is I16 || ty is I32 || ty is U8 || ty is U16 || ty is U32 || ty is Boolean
            || ty is F32,
    ensures
        narrowed(ty, narrowed(Type::I32, x)) == narrowed(ty, x),
{
    let y = (((x << 32) as i64) >> 32) as u64;
    assert(y == (((x << 32) as i64) >> 32) as u64 ==> y << 56 == x << 56 && y << 48 == x << 48 && y
        << 32 == x << 32 && y & 0xff == x & 0xff && y & 0xffff == x & 0xffff && y & 0xffff_ffff == x
        & 0xffff_ffff && y & 1 == x & 1) by (bit_vector);
}

/// The code that turns a scalar into bits gives a number with the same first bytes.
proof fn bits_are_taken(
    ty: RustType,
    source: OperandModel,
    code: CodeModel,
    from: nat,
    first: Machine,
    m: Machine,
    x: u64,
) -> (r: (Machine, u64))
    requires
        from <= code.instructions.len(),
        executed(first, code.instructions, from) == Some(m),
        is_plain_number(ty),
        operand_type(source) == lowered(ty),
        is_settled(source, code.temps),
        value_of(m, source) == Some(x),
        code.temps < usize::MAX,
    ensures
        ({
            let (n, y) = r;
            let (after, outcome) = scalar_bits(ty, source, code);
            let size = number_bytes(ty);
            &&& outcome matches Ok((bits, bits_ty, count))
            &&& count == size
            &&& bits_ty == bits_type(size, lowered(ty))
            &&& holds_bits(bits_ty)
            &&& size <= bits_width(bits_ty)
            &&& operand_type(bits) == bits_ty
            &&& executed(first, after.instructions, from) == Some(n)
            &&& n.arrays == m.arrays
            &&& kept(m, n, code.temps)
            &&& goes_on(code, after, 1)
            &&& value_of(n, bits) == Some(y)
            &&& is_settled(bits, after.temps)
            &&& low_bytes(y, size as int) == low_bytes(x, size as int)
        }),
{
    reveal(scalar_bits);
    reveal_with_fuel(lowered, 2);
    reveal_strlit("union_bits");
    let size = number_bytes(ty);
    let bits_ty = bits_type(size, lowered(ty));
    if ty.kind is Float {
        reveal_strlit("union_f32_bits");
        reveal_strlit("union_f64_bits");
        let single = ty.kind == TypeKind::Float(FloatKind::F32);
        let prefix = if single {
            "union_f32_bits"@
        } else {
            "union_f64_bits"@
        };
        let (taken, dest) = fresh(code, prefix);
        let instruction = if single {
            calls_static(
                dest,
                "java/lang/Float"@,
                "floatToRawIntBits"@,
                static_method(params1("value"@, Type::F32), Type::I32),
                args1(source),
            )
        } else {
            calls_static(
                dest,
                "java/lang/Double"@,
                "doubleToRawLongBits"@,
                static_method(params1("value"@, Type::F64), Type::I64),
                args1(source),
            )
        };
        reveal(args1);
        reveal(is_bit_conversion);
        platform_is_not_the_runtime();
        assert(args1(source)[0] == source);
        assert(scalar_bits(ty, source, code).0 == emit(taken, instruction));
        one_more_step(first, taken, from, instruction);
        let y = narrowed(bits_ty, x);
        assert(stepped(m, instruction) == Some(assigned(m, dest, y)));
        low_bytes_of_extended(x, 4);
        assignment_keeps(m, prefix, code.temps, y);
        taken_is_settled(prefix, code.temps, taken.temps);
        (assigned(m, dest, y), y)
    } else if operand_type(source) == bits_ty {
        kept_by_nothing(m, m, code.temps);
        (m, x)
    } else {
        let (taken, dest) = fresh(code, "union_bits"@);
        one_more_step(first, taken, from, converts(source, bits_ty, dest));
        let y = narrowed(bits_ty, x);
        low_bytes_of_extended(x, size as int);
        assignment_keeps(m, "union_bits"@, code.temps, y);
        taken_is_settled("union_bits"@, code.temps, taken.temps);
        (assigned(m, dest, y), y)
    }
}

/// The code that turns bits into a scalar gives the number of the scalar's type with these bits.
proof fn scalar_is_made(
    ty: RustType,
    bits: OperandModel,
    code: CodeModel,
    from: nat,
    first: Machine,
    m: Machine,
    x: u64,
) -> (n: Machine)
    requires
        from <= code.instructions.len(),
        executed(first, code.instructions, from) == Some(m),
        is_plain_number(ty),
        value_of(m, bits) == Some(narrowed(bits_type(number_bytes(ty), lowered(ty)), x)),
        is_settled(bits, code.temps),
        operand_type(bits) == bits_type(number_bytes(ty), lowered(ty)),
        code.temps < usize::MAX,
    ensures
        ({
            let (after, result) = scalar_of_bits(
                ty,
                bits,
                bits_type(number_bytes(ty), lowered(ty)),
                code,
            );
            &&& executed(first, after.instructions, from) == Some(n)
            &&& n.arrays == m.arrays
            &&& kept(m, n, code.temps)
            &&& goes_on(code, after, 1)
            &&& value_of(n, result) == Some(narrowed(lowered(ty), x))
            &&& operand_type(result) == lowered(ty)
            &&& is_settled(result, after.temps)
        }),
{
    reveal(scalar_of_bits);
    reveal_with_fuel(lowered, 2);
    reveal_strlit("union_scalar_value");
    let bits_ty = bits_type(number_bytes(ty), lowered(ty));
    if ty.kind is Float {
        reveal_strlit("union_f32_value");
        reveal_strlit("union_f64_value");
        let single = ty.kind == TypeKind::Float(FloatKind::F32);
        let prefix = if single {
            "union_f32_value"@
        } else {
            "union_f64_value"@
        };
        let (taken, dest) = fresh(code, prefix);
        let instruction = if single {
            calls_static(
                dest,
                "java/lang/Float"@,
                "intBitsToFloat"@,
                static_method(params1("bits"@, Type::I32), Type::F32),
                args1(bits),
            )
        } else {
            calls_static(
                dest,
                "java/lang/Double"@,
                "longBitsToDouble"@,
                static_method(params1("bits"@, Type::I64), Type::F64),
                args1(bits),
            )
        };
        reveal(args1);
        reveal(is_bit_conversion);
        platform_is_not_the_runtime();
        assert(args1(bits)[0] == bits);
        assert(scalar_of_bits(ty, bits, bits_ty, code).0 == emit(taken, instruction));
        one_more_step(first, taken, from, instruction);
        if single {
            narrowed_behind_extension(lowered(ty), x);
        }
        let y = narrowed(lowered(ty), x);
        assert(stepped(m, instruction) == Some(assigned(m, dest, y)));
        assignment_keeps(m, prefix, code.temps, y);
        taken_is_settled(prefix, code.temps, taken.temps);
        assigned(m, dest, y)
    } else if lowered(ty) == bits_ty {
        kept_by_nothing(m, m, code.temps);
        m
    } else {
        narrowed_behind_extension(lowered(ty), x);
        let (taken, dest) = fresh(code, "union_scalar_value"@);
        one_more_step(first, taken, from, converts(bits, lowered(ty), dest));
        let y = narrowed(lowered(ty), x);
        assignment_keeps(m, "union_scalar_value"@, code.temps, y);
        taken_is_settled("union_scalar_value"@, code.temps, taken.temps);
        assigned(m, dest, y)
    }
}

/// Numbers with the same first bytes have the same bytes.
proof fn same_bytes(x: u64, y: u64, size: int, index: int)
    requires
        0 <= index < size <= 8,
        low_bytes(x, size) == low_bytes(y, size),
    ensures
        byte_at(x, index) == byte_at(y, index),
{
    let s = (8 * size) as u64;
    let t = (8 * index) as u64;
    if size < 8 {
        assert(t + 8 <= s && s < 64 && x & (
            ((1u64 << s) - 1) as u64
        ) == y & (((1u64 << s) - 1) as u64) ==> (x
            >> t) & 0xff == (y >> t) & 0xff) by (bit_vector);
    }
}

/// The code that stores a number puts its bytes into the array, least significant byte first, and
/// leaves everything else as it was.
pub proof fn number_is_stored(
    ty: RustType,
    source: OperandModel,
    storage: UnionStorageModel,
    base_offset: usize,
    code: CodeModel,
    defs: DefinitionsModel,
    from: nat,
    first: Machine,
    m: Machine,
    start: u64,
    x: u64,
) -> (n: Machine)
    requires
        from <= code.instructions.len(),
        executed(first, code.instructions, from) == Some(m),
        is_plain_number(ty),
        operand_type(source) == lowered(ty),
        is_settled(source, code.temps),
        value_of(m, source) == Some(x),
        has_room(m, storage, code.temps, start, base_offset + number_bytes(ty)),
        code.temps + 40 <= usize::MAX,
    ensures
        ({
            let (after, defs1, outcome) = stored(ty, source, storage, base_offset, code, defs);
            let bytes = m.arrays[storage.bytes_var];
            &&& outcome is Ok
            &&& defs1 == defs
            &&& executed(first, after.instructions, from) == Some(n)
            &&& n.arrays == m.arrays.insert(
                storage.bytes_var,
                with_number(bytes, start + base_offset, x, number_bytes(ty) as int),
            )
            &&& kept(m, n, code.temps)
            &&& goes_on(code, after, 40)
        }),
{
    reveal(stored_scalar);
    reveal_with_fuel(lowered, 2);
    let size = number_bytes(ty);
    let (code1, taken) = scalar_bits(ty, source, code);
    let (m1, y) = bits_are_taken(ty, source, code, from, first, m, x);
    let (bits, bits_ty, _) = taken->Ok_0;
    value_is_kept(m, m1, code.temps, storage.base_offset);
    settled_for_longer(storage.base_offset, code.temps, code1.temps);
    let n = bits_are_stored(
        bits,
        bits_ty,
        size as nat,
        storage,
        base_offset,
        code1,
        from,
        first,
        m1,
        start,
        y,
    );
    let bytes = m.arrays[storage.bytes_var];
    let at = start + base_offset;
    let written = with_number(bytes, at, y, size as int);
    let expected = with_number(bytes, at, x, size as int);
    assert(written =~= expected) by {
        assert forall|i: int| 0 <= i < bytes.len() implies #[trigger] written[i] == expected[i] by {
            if at <= i < at + size {
                same_bytes(x, y, size as int, i - at);
            }
        }
    }
    kept_by_both(m, m1, n, code.temps, code1.temps);
    n
}

/// The code that loads a number gives the number of its type whose bytes stand in the array, and
/// leaves everything else as it was.
pub proof fn number_is_loaded(
    ty: RustType,
    storage: UnionStorageModel,
    base_offset: usize,
    code: CodeModel,
    defs: DefinitionsModel,
    from: nat,
    first: Machine,
    m: Machine,
    start: u64,
    x: u64,
) -> (n: Machine)
    requires
        from <= code.instructions.len(),
        executed(first, code.instructions, from) == Some(m),
        is_plain_number(ty),
        has_room(m, storage, code.temps, start, base_offset + number_bytes(ty)),
        number_at(
            m.arrays[storage.bytes_var],
            start + base_offset,
            number_bytes(ty) as nat,
        ) == low_bytes(x, number_bytes(ty) as int),
        code.temps + 50 <= usize::MAX,
    ensures
        ({
            let (after, defs1, outcome) = loaded(ty, storage, base_offset, code, defs);
            &&& outcome matches Ok(result)
            &&& defs1 == defs
            &&& executed(first, after.instructions, from) == Some(n)
            &&& n.arrays == m.arrays
            &&& kept(m, n, code.temps)
            &&& goes_on(code, after, 50)
            &&& value_of(n, result) == Some(narrowed(lowered(ty), x))
            &&& operand_type(result) == lowered(ty)
            &&& is_settled(result, after.temps)
        }),
{
    reveal(loaded_scalar);
    reveal_with_fuel(lowered, 2);
    let size = number_bytes(ty);
    let bits_ty = bits_type(size, lowered(ty));
    let (code1, collected) = loaded_bits(bits_ty, size as nat, storage, base_offset, code);
    let m1 = bits_are_loaded(
        bits_ty,
        size as nat,
        storage,
        base_offset,
        code,
        from,
        first,
        m,
        start,
    );
    let n = scalar_is_made(ty, collected, code1, from, first, m1, low_bytes(x, size as int));
    low_bytes_are_enough(ty, x);
    kept_by_both(m, m1, n, code.temps, code1.temps);
    n
}

/// What is stored as a number of one type and loaded from the same place as one of another type of
/// the same size is the number of the other type with the same bits.
pub proof fn stored_bits_are_reinterpreted(
    written: RustType,
    read: RustType,
    source: OperandModel,
    storage: UnionStorageModel,
    base_offset: usize,
    code: CodeModel,
    defs: DefinitionsModel,
    from: nat,
    first: Machine,
    m: Machine,
    start: u64,
    x: u64,
) -> (n: Machine)
    requires
        from <= code.instructions.len(),
        executed(first, code.instructions, from) == Some(m),
        is_plain_number(written),
        is_plain_number(read),
        number_bytes(written) == number_bytes(read),
        operand_type(source) == lowered(written),
        is_settled(source, code.temps),
        value_of(m, source) == Some(x),
        has_room(m, storage, code.temps, start, base_offset + number_bytes(written)),
        code.temps + 90 <= usize::MAX,
    ensures
        ({
            let (between, defs1, stored_outcome) = stored(
                written,
                source,
                storage,
                base_offset,
                code,
                defs,
            );
            let (after, defs2, outcome) = loaded(read, storage, base_offset, between, defs1);
            &&& stored_outcome is Ok
            &&& outcome matches Ok(result)
            &&& defs2 == defs
            &&& executed(first, after.instructions, from) == Some(n)
            &&& kept(m, n, code.temps)
            &&& value_of(n, result) == Some(narrowed(lowered(read), x))
            &&& operand_type(result) == lowered(read)
        }),
{
    let (between, _, _) = stored(written, source, storage, base_offset, code, defs);
    let m1 = number_is_stored(
        written,
        source,
        storage,
        base_offset,
        code,
        defs,
        from,
        first,
        m,
        start,
        x,
    );
    let size = number_bytes(written);
    value_is_kept(m, m1, code.temps, storage.base_offset);
    settled_for_longer(storage.base_offset, code.temps, between.temps);
    number_is_put_together(m.arrays[storage.bytes_var], start + base_offset, x, size as nat);
    let n = number_is_loaded(
        read,
        storage,
        base_offset,
        between,
        defs,
        from,
        first,
        m1,
        start,
        x,
    );
    kept_by_both(m, m1, n, code.temps, between.temps);
    n
}

/// What is stored in a union as a number and loaded as the same type is the number that was
/// stored.
pub proof fn stored_number_is_loaded(
    ty: RustType,
    source: OperandModel,
    storage: UnionStorageModel,
    base_offset: usize,
    code: CodeModel,
    defs: DefinitionsModel,
    from: nat,
    first: Machine,
    m: Machine,
    start: u64,
    x: u64,
) -> (n: Machine)
    requires
        from <= code.instructions.len(),
        executed(first, code.instructions, from) == Some(m),
        is_plain_number(ty),
        operand_type(source) == lowered(ty),
        is_settled(source, code.temps),
        value_of(m, source) == Some(x),
        is_of(lowered(ty), x),
        has_room(m, storage, code.temps, start, base_offset + number_bytes(ty)),
        code.temps + 90 <= usize::MAX,
    ensures
        ({
            let (between, defs1, stored_outcome) = stored(
                ty,
                source,
                storage,
                base_offset,
                code,
                defs,
            );
            let (after, defs2, outcome) = loaded(ty, storage, base_offset, between, defs1);
            &&& stored_outcome is Ok
            &&& outcome matches Ok(result)
            &&& defs2 == defs
            &&& executed(first, after.instructions, from) == Some(n)
            &&& kept(m, n, code.temps)
            &&& value_of(n, result) == Some(x)
            &&& operand_type(result) == lowered(ty)
        }),
{
    stored_bits_are_reinterpreted(
        ty,
        ty,
        source,
        storage,
        base_offset,
        code,
        defs,
        from,
        first,
        m,
        start,
        x,
    )
}

/// The conversion of a number into a type of the same size returns the number of that type with the
/// same bits: what a method does that converts between two types.
pub proof fn conversion_keeps_the_bits(
    source: RustType,
    target: RustType,
    signature: SignatureModel,
    defs: DefinitionsModel,
    m: Machine,
    x: u64,
) -> (n: Machine)
    requires
        is_plain_number(source),
        is_plain_number(target),
        number_bytes(source) == number_bytes(target),
        m.numbers.contains_key("_1"@),
        m.numbers["_1"@] == x,
    ensures
        ({
            let (_, outcome) = conversion(source, target, number_bytes(source), signature, defs);
            &&& outcome matches Ok(list)
            &&& list.len() > 0
            &&& list.last() matches InstructionModel::Return { operand: Some(result) }
            &&& executed(m, list.drop_last(), 0) == Some(n)
            &&& value_of(n, result) == Some(narrowed(lowered(target), x))
        }),
{
    reveal(conversion);
    reveal(byte_conversion);
    reveal(direct_conversion);
    reveal(conversion_end);
    reveal(target_value);
    reveal(number_pointer);
    reveal(unprovenanced_pointer);
    reveal_with_fuel(lowered, 2);
    reveal_strlit("_1");
    reveal_strlit("_");
    let size = number_bytes(source);
    assert(!is_later("_1"@, 0)) by {
        reveal(is_later);
        if is_later("_1"@, 0) {
            let (p, k) = choose|p: Text, k: usize|
                p.len() > 0 && k >= 0 && "_1"@ == #[trigger] temp_name(p, k);
            decimal_is_digits(k as nat);
            assert(temp_name(p, k).len() == p.len() + 1 + decimal_text(k as nat).len());
            assert("_1"@.len() == 2);
        }
    }
    let storage = storage_at_start("_exact_bytes"@, "_exact_objects"@);
    let code0 = empty_code(0);
    let make_bytes = makes_array("_exact_bytes"@, Type::I8, i32_value(jvm_number(size)));
    let code1 = emit(code0, make_bytes);
    let make_objects = makes_array(
        "_exact_objects"@,
        object_class(),
        i32_value(jvm_number(at_least_one(size))),
    );
    let code2 = emit(code1, make_objects);
    one_more_step(m, code0, 0, make_bytes);
    one_more_step(m, code1, 0, make_objects);
    let m1 = array_made(m, "_exact_bytes"@, Type::I8, size as u64);
    assert(executed(m, code2.instructions, 0) == Some(m1));
    let n = stored_bits_are_reinterpreted(
        source,
        target,
        source_value(source),
        storage,
        0,
        code2,
        defs,
        0,
        m,
        m1,
        0,
        x,
    );
    let (_, outcome) = conversion(source, target, size, signature, defs);
    let list = outcome->Ok_0;
    let (between, defs1, _) = stored(source, source_value(source), storage, 0, code2, defs);
    let (after, _, loaded_outcome) = loaded(target, storage, 0, between, defs1);
    let end = returns_value(loaded_outcome->Ok_0);
    assert(list == after.instructions.push(end));
    assert(list.drop_last() =~= after.instructions);
    n
}

/// A conversion between types of different sizes is refused, and says so.
pub proof fn different_sizes_are_refused(
    source: RustType,
    target: RustType,
    class_name: Text,
    defs: DefinitionsModel,
    source_size: usize,
    target_size: usize,
)
    requires
        size_of(source) == Ok::<usize, Text>(source_size),
        size_of(target) == Ok::<usize, Text>(target_size),
        source_size != target_size,
    ensures
        exact_transmute(source, target, class_name, defs) == (
            defs,
            Err::<ExactTransmuteHelperModel, Text>(
                size_mismatch(source, source_size, target, target_size),
            ),
        ),
{
    reveal(exact_transmute);
}

} // verus!
