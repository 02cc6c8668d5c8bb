//! What is stored in the bytes of a union is what is loaded from them.
use crate::code::{
    CodeModel, byte_array, computes, converts, emit, fresh, i32_value, i8_value, next_number,
    reads_element, stores_element, temp_name, variable,
};
use crate::execution::{
    Machine, assigned, assignment_keeps, byte_replaced, executed, is_settled, kept, kept_by_both,
    kept_by_nothing, narrowed, one_more_step, settled_for_longer, stepped, taken_is_settled,
    value_is_kept, value_of,
};
use crate::oomir::{BinaryOp, Constant, Operand, OperandModel, Text, Type, TypeModel, operand_type};
use crate::union_storage::{
    UnionStorageModel, byte_mask, byte_of, byte_position, byte_shift, joined_byte, loaded_bits,
    loaded_byte, offset_sum, shifted_byte, stored_bits, stored_byte, stored_tag,
    stored_tag_byte,
};
use vstd::prelude::*;
use vstd::string::*;

verus! {

/// One byte of a number, counted from the least significant one.
pub open spec fn byte_at(x: u64, index: int) -> u8 {
    ((x >> ((8 * index) as u64)) & 0xff) as u8
}

/// The first bytes of a number; the bits above them are zero.
pub open spec fn low_bytes(x: u64, size: int) -> u64 {
    if size >= 8 {
        x
    } else {
        x & (((1u64 << ((8 * size) as u64)) - 1) as u64)
    }
}

/// An array in which the first bytes of a number stand from a position on, least significant byte
/// first.
pub open spec fn with_number(bytes: Seq<u8>, start: int, x: u64, size: int) -> Seq<u8> {
    Seq::new(
        bytes.len(),
        |i: int|
            if start <= i < start + size {
                byte_at(x, i - start)
            } else {
                bytes[i]
            },
    )
}

/// The number whose bytes stand in an array from a position on, least significant byte first.
pub open spec fn number_at(bytes: Seq<u8>, start: int, size: nat) -> u64
    decreases size,
{
    if size == 0 {
        0
    } else {
        number_at(bytes, start, (size - 1) as nat) | ((bytes[start + size - 1] as u64) << ((8 * (
        size - 1)) as u64))
    }
}

/// The number of bytes in a type that holds bits.
pub open spec fn bits_width(bits_ty: TypeModel) -> int {
    if bits_ty is I32 {
        4
    } else {
        8
    }
}

/// Whether a type is one in which bits are taken apart.
pub open spec fn holds_bits(bits_ty: TypeModel) -> bool {
    bits_ty is I32 || bits_ty is I64 || bits_ty is U64
}

/// Whether a storage starts at a position of a byte array that has room for a number of bytes.
pub open spec fn has_room(
    m: Machine,
    storage: UnionStorageModel,
    temps: usize,
    start: u64,
    length: int,
) -> bool {
    &&& value_of(m, storage.base_offset) == Some(start)
    &&& operand_type(storage.base_offset) == Type::<Text>::I32
    &&& is_settled(storage.base_offset, temps)
    &&& m.arrays.contains_key(storage.bytes_var)
    &&& start + length <= m.arrays[storage.bytes_var].len() <= i32::MAX
}

/// Whether some code goes on from other code: it has the same instructions first and takes a few
/// temporaries more.
pub open spec fn goes_on(code: CodeModel, after: CodeModel, few: int) -> bool {
    &&& code.instructions.len() <= after.instructions.len()
    &&& forall|i: int|
        0 <= i < code.instructions.len() ==> #[trigger] after.instructions[i]
            == code.instructions[i]
    &&& code.temps <= after.temps <= code.temps + few
}

/// Room stays when everything but free temporaries is kept.
pub proof fn room_is_kept(
    m: Machine,
    n: Machine,
    storage: UnionStorageModel,
    first: usize,
    second: usize,
    start: u64,
    length: int,
)
    requires
        has_room(m, storage, first, start, length),
        kept(m, n, first),
        n.arrays.contains_key(storage.bytes_var),
        n.arrays[storage.bytes_var].len() == m.arrays[storage.bytes_var].len(),
        first <= second,
    ensures
        has_room(n, storage, second, start, length),
{
    value_is_kept(m, n, first, storage.base_offset);
    settled_for_longer(storage.base_offset, first, second);
}

/// The code of a position computes it.
pub proof fn position_is_computed(
    storage: UnionStorageModel,
    relative_offset: usize,
    code: CodeModel,
    from: nat,
    first: Machine,
    m: Machine,
    start: u64,
    length: int,
) -> (n: Machine)
    requires
        from <= code.instructions.len(),
        executed(first, code.instructions, from) == Some(m),
        has_room(m, storage, code.temps, start, length),
        relative_offset < length,
        code.temps < usize::MAX,
    ensures
        ({
            let (after, position) = byte_position(storage, relative_offset, code);
            &&& executed(first, after.instructions, from) == Some(n)
            &&& value_of(n, position) == Some((start + relative_offset) as u64)
            &&& n.arrays == m.arrays
            &&& n.slots == m.slots
            &&& kept(m, n, code.temps)
            &&& goes_on(code, after, 1)
        }),
{
    reveal(byte_position);
    let (after, position) = byte_position(storage, relative_offset, code);
    match storage.base_offset {
        Operand::Constant(Constant::I32(base)) => {
            assert(base as u64 <= 0x7fff_ffff ==> base >= 0) by (bit_vector);
            kept_by_nothing(m, m, code.temps);
            m
        },
        _ => if relative_offset == 0 {
            kept_by_nothing(m, m, code.temps);
            m
        } else {
            reveal_strlit("union_storage_offset");
            let (taken, dest) = fresh(code, "union_storage_offset"@);
            let sum: u64 = (start + relative_offset) as u64;
            assert(
                sum <= 0x7fff_ffff ==> (((sum << 32) as i64) >> 32) as u64 == sum
            ) by (bit_vector);
            let instruction = computes(
                BinaryOp::Add,
                dest,
                storage.base_offset,
                i32_value(relative_offset as i32),
            );
            one_more_step(first, taken, from, instruction);
            assignment_keeps(m, "union_storage_offset"@, code.temps, sum);
            assigned(m, dest, sum)
        },
    }
}

/// Shifting and masking give one byte, whether the shift keeps the sign or not.
proof fn shifted_and_masked(x: u64, s: u64)
    requires
        s <= 56,
    ensures
        ((((x as i64) >> s) as u64) & 0xff) == ((x >> s) & 0xff),
        ((x >> s) & 0xff) < 256,
        narrowed(Type::I8, (x >> s) & 0xff) & 0xff == (x >> s) & 0xff,
{
    assert(s <= 56 ==> ((((x as i64) >> s) as u64) & 0xff) == ((x >> s) & 0xff)) by (bit_vector);
    let y = (x >> s) & 0xff;
    assert(y == (x >> s) & 0xff ==> y < 256) by (bit_vector);
    assert(y < 256 ==> ((((y << 56) as i64) >> 56) as u64) & 0xff == y) by (bit_vector);
}

/// The code that stores one byte of a number replaces that byte in the array.
proof fn byte_is_stored(
    bits: OperandModel,
    bits_ty: TypeModel,
    index: usize,
    storage: UnionStorageModel,
    base_offset: usize,
    code: CodeModel,
    from: nat,
    first: Machine,
    m: Machine,
    start: u64,
    length: int,
    x: u64,
) -> (n: Machine)
    requires
        from <= code.instructions.len(),
        executed(first, code.instructions, from) == Some(m),
        has_room(m, storage, code.temps, start, length),
        base_offset + index < length,
        code.temps + 4 <= usize::MAX,
        holds_bits(bits_ty),
        operand_type(bits) == bits_ty,
        index < bits_width(bits_ty),
        value_of(m, bits) == Some(x),
    ensures
        executed(
            first,
            stored_byte(bits, bits_ty, index, storage, base_offset, code).instructions,
            from,
        ) == Some(n),
        n.arrays == m.arrays.insert(
            storage.bytes_var,
            m.arrays[storage.bytes_var].update(
                start + base_offset + index,
                byte_at(x, index as int),
            ),
        ),
        kept(m, n, code.temps),
        goes_on(code, stored_byte(bits, bits_ty, index, storage, base_offset, code), 4),
{
    reveal(stored_byte);
    reveal(shifted_byte);
    reveal_strlit("union_shift");
    reveal_strlit("union_mask");
    reveal_strlit("union_byte");
    let s = (8 * index) as u64;
    shifted_and_masked(x, s);
    assert(x >> 0 == x) by (bit_vector);
    let (code1, shifted) = shifted_byte(bits, bits_ty, index, code);
    let y: u64 = if bits_ty is U64 || index == 0 {
        x >> s
    } else {
        ((x as i64) >> s) as u64
    };
    let m1 = if index == 0 {
        m
    } else {
        assigned(m, temp_name("union_shift"@, code.temps), y)
    };
    assert(executed(first, code1.instructions, from) == Some(m1) && value_of(m1, shifted) == Some(y)
        && kept(m, m1, code.temps) && operand_type(shifted) == bits_ty) by {
        if index == 0 {
            kept_by_nothing(m, m, code.temps);
        } else {
            let (taken, dest) = fresh(code, "union_shift"@);
            one_more_step(
                first,
                taken,
                from,
                computes(BinaryOp::Shr, dest, bits, byte_shift(index)),
            );
            assignment_keeps(m, "union_shift"@, code.temps, y);
        }
    }
    let byte: u64 = (x >> s) & 0xff;
    let (taken2, masked_dest) = fresh(code1, "union_mask"@);
    let instruction2 = computes(BinaryOp::BitAnd, masked_dest, shifted, byte_mask(bits_ty));
    let code2 = emit(taken2, instruction2);
    let m2 = assigned(m1, masked_dest, byte);
    one_more_step(first, taken2, from, instruction2);
    assignment_keeps(m1, "union_mask"@, code1.temps, byte);
    assert(executed(first, code2.instructions, from) == Some(m2));
    let (taken3, byte_dest) = fresh(code2, "union_byte"@);
    let instruction3 = converts(variable(masked_dest, bits_ty), Type::I8, byte_dest);
    let code3 = emit(taken3, instruction3);
    let z = narrowed(Type::I8, byte);
    let m3 = assigned(m2, byte_dest, z);
    one_more_step(first, taken3, from, instruction3);
    assignment_keeps(m2, "union_byte"@, code2.temps, z);
    assert(executed(first, code3.instructions, from) == Some(m3));
    kept_by_both(m1, m2, m3, code1.temps, code2.temps);
    kept_by_both(m, m1, m3, code.temps, code1.temps);
    room_is_kept(m, m3, storage, code.temps, code3.temps, start, length);
    let relative_offset = offset_sum(base_offset, index);
    let (code4, position) = byte_position(storage, relative_offset, code3);
    let m4 = position_is_computed(storage, relative_offset, code3, from, first, m3, start, length);
    taken_is_settled("union_byte"@, code2.temps, code3.temps);
    value_is_kept(m3, m4, code3.temps, variable(byte_dest, Type::I8));
    kept_by_both(m, m3, m4, code.temps, code3.temps);
    let instruction5 = stores_element(storage.bytes_var, position, variable(byte_dest, Type::I8));
    one_more_step(first, code4, from, instruction5);
    let n = byte_replaced(
        m4,
        storage.bytes_var,
        start + base_offset + index,
        byte_at(x, index as int),
    );
    assert(stepped(m4, instruction5) == Some(n));
    kept_by_nothing(m4, n, code4.temps);
    kept_by_both(m, m4, n, code.temps, code4.temps);
    n
}

/// The code that stores a number puts its bytes into the array, least significant byte first, and
/// leaves the other bytes, the other arrays and all numbers but its own temporaries as they were.
pub proof fn bits_are_stored(
    bits: OperandModel,
    bits_ty: TypeModel,
    size: nat,
    storage: UnionStorageModel,
    base_offset: usize,
    code: CodeModel,
    from: nat,
    first: Machine,
    m: Machine,
    start: u64,
    x: u64,
) -> (n: Machine)
    requires
        from <= code.instructions.len(),
        executed(first, code.instructions, from) == Some(m),
        has_room(m, storage, code.temps, start, base_offset + size),
        code.temps + 4 * size <= usize::MAX,
        holds_bits(bits_ty),
        operand_type(bits) == bits_ty,
        is_settled(bits, code.temps),
        size <= bits_width(bits_ty),
        value_of(m, bits) == Some(x),
    ensures
        executed(
            first,
            stored_bits(bits, bits_ty, size, storage, base_offset, code).instructions,
            from,
        ) == Some(n),
        n.arrays == m.arrays.insert(
            storage.bytes_var,
            with_number(
                m.arrays[storage.bytes_var],
                start + base_offset,
                x,
                size as int,
            ),
        ),
        kept(m, n, code.temps),
        goes_on(
            code,
            stored_bits(bits, bits_ty, size, storage, base_offset, code),
            4 * size as int,
        ),
    decreases size,
{
    reveal(stored_bits);
    let bytes = m.arrays[storage.bytes_var];
    let at = start + base_offset;
    if size == 0 {
        kept_by_nothing(m, m, code.temps);
        assert(with_number(bytes, at, x, 0) =~= bytes);
        assert(m.arrays.insert(storage.bytes_var, bytes) =~= m.arrays);
        m
    } else {
        let less = (size - 1) as nat;
        let index = (size - 1) as usize;
        let before = bits_are_stored(
            bits,
            bits_ty,
            less,
            storage,
            base_offset,
            code,
            from,
            first,
            m,
            start,
            x,
        );
        let code1 = stored_bits(bits, bits_ty, less, storage, base_offset, code);
        room_is_kept(m, before, storage, code.temps, code1.temps, start, base_offset + size);
        value_is_kept(m, before, code.temps, bits);
        let n = byte_is_stored(
            bits,
            bits_ty,
            index,
            storage,
            base_offset,
            code1,
            from,
            first,
            before,
            start,
            base_offset + size,
            x,
        );
        kept_by_both(m, before, n, code.temps, code1.temps);
        assert(with_number(bytes, at, x, less as int).update(at + index, byte_at(x, index as int))
            =~= with_number(bytes, at, x, size as int));
        assert(n.arrays =~= m.arrays.insert(
            storage.bytes_var,
            with_number(bytes, at, x, size as int),
        ));
        n
    }
}

/// One byte of a 128-bit number, counted from the least significant one.
pub open spec fn wide_byte_at(x: u128, index: int) -> u8 {
    ((x >> ((8 * index) as u128)) & 0xff) as u8
}

/// An array in which the first bytes of a 128-bit number stand from a position on, least
/// significant byte first.
pub open spec fn with_wide_number(bytes: Seq<u8>, start: int, x: u128, size: int) -> Seq<u8> {
    Seq::new(
        bytes.len(),
        |i: int|
            if start <= i < start + size {
                wide_byte_at(x, i - start)
            } else {
                bytes[i]
            },
    )
}

/// The 128-bit number whose bytes stand in an array from a position on, least significant byte
/// first.
pub open spec fn wide_number_at(bytes: Seq<u8>, start: int) -> u128 {
    (number_at(bytes, start, 8) as u128) | ((number_at(bytes, start + 8, 8) as u128) << 64)
}

/// The code that stores a 128-bit number puts its first bytes into the array, least significant
/// byte first, and leaves everything else but its own temporaries as it was.
pub proof fn wide_number_is_stored(
    x: u128,
    size: nat,
    storage: UnionStorageModel,
    base_offset: usize,
    code: CodeModel,
    from: nat,
    first: Machine,
    m: Machine,
    start: u64,
) -> (n: Machine)
    requires
        size <= 16,
        from <= code.instructions.len(),
        executed(first, code.instructions, from) == Some(m),
        has_room(m, storage, code.temps, start, base_offset + size),
        code.temps + size <= usize::MAX,
    ensures
        executed(first, stored_tag(x, size, storage, base_offset, code).instructions, from) == Some(
            n,
        ),
        n.arrays == m.arrays.insert(
            storage.bytes_var,
            with_wide_number(
                m.arrays[storage.bytes_var],
                start + base_offset,
                x,
                size as int,
            ),
        ),
        kept(m, n, code.temps),
        goes_on(code, stored_tag(x, size, storage, base_offset, code), size as int),
    decreases size,
{
    reveal(stored_tag);
    let bytes = m.arrays[storage.bytes_var];
    let at = start + base_offset;
    if size == 0 {
        kept_by_nothing(m, m, code.temps);
        assert(with_wide_number(bytes, at, x, 0) =~= bytes);
        assert(m.arrays.insert(storage.bytes_var, bytes) =~= m.arrays);
        m
    } else {
        reveal(stored_tag_byte);
        let less = (size - 1) as nat;
        let index = (size - 1) as usize;
        let length = base_offset + size;
        assert(has_room(m, storage, code.temps, start, base_offset + less));
        let before = wide_number_is_stored(
            x,
            less,
            storage,
            base_offset,
            code,
            from,
            first,
            m,
            start,
        );
        let code1 = stored_tag(x, less, storage, base_offset, code);
        room_is_kept(m, before, storage, code.temps, code1.temps, start, length);
        let relative_offset = offset_sum(base_offset, index);
        let (code2, position) = byte_position(storage, relative_offset, code1);
        let m2 = position_is_computed(
            storage,
            relative_offset,
            code1,
            from,
            first,
            before,
            start,
            length,
        );
        let byte = byte_of(x, index);
        let instruction = stores_element(storage.bytes_var, position, i8_value(byte));
        one_more_step(first, code2, from, instruction);
        let s = (8 * index) as u128;
        assert((((x >> s) as i8 as u64) & 0xff) as u8 == ((x >> s) & 0xff) as u8) by (bit_vector);
        let n = byte_replaced(
            m2,
            storage.bytes_var,
            start + base_offset + index,
            wide_byte_at(x, index as int),
        );
        assert(stepped(m2, instruction) == Some(n));
        kept_by_nothing(m2, n, code2.temps);
        kept_by_both(before, m2, n, code1.temps, code2.temps);
        kept_by_both(m, before, n, code.temps, code1.temps);
        assert(with_wide_number(bytes, at, x, less as int).update(
            at + index,
            wide_byte_at(x, index as int),
        ) =~= with_wide_number(bytes, at, x, size as int));
        assert(n.arrays =~= m.arrays.insert(
            storage.bytes_var,
            with_wide_number(bytes, at, x, size as int),
        ));
        n
    }
}

/// A 128-bit number whose sixteen bytes stand in an array is the number there.
pub proof fn wide_number_is_put_together(bytes: Seq<u8>, start: int, x: u128)
    requires
        0 <= start,
        start + 16 <= bytes.len(),
    ensures
        wide_number_at(with_wide_number(bytes, start, x, 16), start) == x,
{
    let low = x as u64;
    let high = (x >> 64) as u64;
    let written = with_wide_number(bytes, start, x, 16);
    assert((low as u128) | ((high as u128) << 64) == x) by (bit_vector)
        requires
            low == x as u64,
            high == (x >> 64) as u64,
    ;
    assert forall|k: int| 0 <= k < 8 implies #[trigger] wide_byte_at(x, k) == byte_at(low, k) by {
        let s = (8 * k) as u64;
        let t = (8 * k) as u128;
        assert(((x >> t) & 0xff) as u8 == ((low >> s) & 0xff) as u8) by (bit_vector)
            requires
                low == x as u64,
                t == s as u128,
                s <= 56,
        ;
    }
    assert forall|k: int| 8 <= k < 16 implies #[trigger] wide_byte_at(x, k) == byte_at(
        high,
        k - 8,
    ) by {
        let s = (8 * (k - 8)) as u64;
        let t = (8 * k) as u128;
        assert(((x >> t) & 0xff) as u8 == ((high >> s) & 0xff) as u8) by (bit_vector)
            requires
                high == (x >> 64) as u64,
                t == s as u128 + 64,
                s <= 56,
        ;
    }
    let lower = with_number(bytes, start, low, 8);
    let upper = with_number(bytes, start + 8, high, 8);
    assert(with_number(lower, start + 8, high, 8) =~= written);
    assert(with_number(upper, start, low, 8) =~= written);
    number_is_put_together(lower, start + 8, high, 8);
    number_is_put_together(upper, start, low, 8);
}

/// A byte that is read as a number with a sign and masked is the byte.
pub proof fn masked_byte(byte: u8)
    ensures
        forall|ty: TypeModel| holds_bits(ty) ==> narrowed(
            ty,
            #[trigger] narrowed(Type::I8, byte as u64),
        ) & 0xff == byte as u64,
        forall|ty: TypeModel| holds_bits(ty)
            ==> #[trigger] narrowed(ty, byte as u64) == byte as u64,
        (byte as u64) << 0 == byte as u64,
        0u64 | ((byte as u64) << 0) == byte as u64,
        (byte as u64) & 0xff == byte as u64,
{
    let b = byte as u64;
    let signed = narrowed(Type::I8, b);
    assert(signed == (
        ((b << 56) as i64) >> 56
    ) as u64 && b < 256 ==> signed & 0xff == b && ((((signed
        << 32) as i64) >> 32) as u64) & 0xff == b) by (bit_vector);
    assert(b < 256 ==> (((b << 32) as i64) >> 32) as u64 == b && b << 0 == b && 0u64 | (b << 0)
        == b && b & 0xff == b) by (bit_vector);
}

/// Joining numbers and narrowing them are done in either order.
proof fn joined_and_narrowed(ty: TypeModel, x: u64, y: u64)
    requires
        holds_bits(ty),
    ensures
        narrowed(ty, x) | narrowed(ty, y) == narrowed(ty, x | y),
{
    assert((
        ((x << 32) as i64) >> 32
    ) as u64 | (((y << 32) as i64) >> 32) as u64 == ((((x | y) << 32) as i64)
        >> 32) as u64) by (bit_vector);
}

/// The code that loads one byte gives the byte at its place in the number.
proof fn byte_is_loaded(
    bits_ty: TypeModel,
    index: usize,
    storage: UnionStorageModel,
    base_offset: usize,
    code: CodeModel,
    from: nat,
    first: Machine,
    m: Machine,
    start: u64,
    length: int,
) -> (n: Machine)
    requires
        from <= code.instructions.len(),
        executed(first, code.instructions, from) == Some(m),
        has_room(m, storage, code.temps, start, length),
        base_offset + index < length,
        code.temps + 5 <= usize::MAX,
        holds_bits(bits_ty),
        index < bits_width(bits_ty),
    ensures
        ({
            let (after, result) = loaded_byte(bits_ty, index, storage, base_offset, code);
            let byte = m.arrays[storage.bytes_var][start + base_offset + index] as u64;
            &&& executed(first, after.instructions, from) == Some(n)
            &&& n.arrays == m.arrays
            &&& kept(m, n, code.temps)
            &&& goes_on(code, after, 5)
            &&& value_of(n, result) == Some(narrowed(bits_ty, byte << ((8 * index) as u64)))
            &&& is_settled(result, after.temps)
            &&& operand_type(result) == bits_ty
        }),
{
    reveal(loaded_byte);
    reveal_strlit("union_raw_byte");
    reveal_strlit("union_wide_byte");
    reveal_strlit("union_masked_byte");
    reveal_strlit("union_decode_shift");
    let byte = m.arrays[storage.bytes_var][start + base_offset + index];
    masked_byte(byte);
    let (code1, raw_dest) = fresh(code, "union_raw_byte"@);
    let relative_offset = offset_sum(base_offset, index);
    kept_by_nothing(m, m, code.temps);
    room_is_kept(m, m, storage, code.temps, code1.temps, start, length);
    let (code2, position) = byte_position(storage, relative_offset, code1);
    let m2 = position_is_computed(storage, relative_offset, code1, from, first, m, start, length);
    kept_by_both(m, m, m2, code.temps, code1.temps);
    let instruction3 = reads_element(
        raw_dest,
        variable(storage.bytes_var, byte_array()),
        position,
    );
    let code3 = emit(code2, instruction3);
    let raw = narrowed(Type::I8, byte as u64);
    let m3 = assigned(m2, raw_dest, raw);
    one_more_step(first, code2, from, instruction3);
    assert(executed(first, code3.instructions, from) == Some(m3));
    assignment_keeps(m2, "union_raw_byte"@, code.temps, raw);
    kept_by_both(m, m2, m3, code.temps, code.temps);
    let (taken4, widened_dest) = fresh(code3, "union_wide_byte"@);
    let instruction4 = converts(variable(raw_dest, Type::I8), bits_ty, widened_dest);
    let code4 = emit(taken4, instruction4);
    let wide = narrowed(bits_ty, raw);
    let m4 = assigned(m3, widened_dest, wide);
    one_more_step(first, taken4, from, instruction4);
    assert(executed(first, code4.instructions, from) == Some(m4));
    assignment_keeps(m3, "union_wide_byte"@, code3.temps, wide);
    kept_by_both(m, m3, m4, code.temps, code3.temps);
    let (taken5, masked_dest) = fresh(code4, "union_masked_byte"@);
    let instruction5 = computes(
        BinaryOp::BitAnd,
        masked_dest,
        variable(widened_dest, bits_ty),
        byte_mask(bits_ty),
    );
    let code5 = emit(taken5, instruction5);
    let m5 = assigned(m4, masked_dest, byte as u64);
    one_more_step(first, taken5, from, instruction5);
    assert(executed(first, code5.instructions, from) == Some(m5));
    assignment_keeps(m4, "union_masked_byte"@, code4.temps, byte as u64);
    kept_by_both(m, m4, m5, code.temps, code4.temps);
    taken_is_settled("union_masked_byte"@, code4.temps, code5.temps);
    if index == 0 {
        m5
    } else {
        let (taken6, shifted_dest) = fresh(code5, "union_decode_shift"@);
        let instruction6 = computes(
            BinaryOp::Shl,
            shifted_dest,
            variable(masked_dest, bits_ty),
            byte_shift(index),
        );
        let code6 = emit(taken6, instruction6);
        let shifted = narrowed(bits_ty, (byte as u64) << ((8 * index) as u64));
        let m6 = assigned(m5, shifted_dest, shifted);
        one_more_step(first, taken6, from, instruction6);
        assert(executed(first, code6.instructions, from) == Some(m6));
        assignment_keeps(m5, "union_decode_shift"@, code5.temps, shifted);
        kept_by_both(m, m5, m6, code.temps, code5.temps);
        taken_is_settled("union_decode_shift"@, code5.temps, code6.temps);
        m6
    }
}

/// The code that loads a number gives the number whose bytes stand in the array, least significant
/// byte first, and leaves all arrays and all numbers but its own temporaries as they were.
pub proof fn bits_are_loaded(
    bits_ty: TypeModel,
    size: nat,
    storage: UnionStorageModel,
    base_offset: usize,
    code: CodeModel,
    from: nat,
    first: Machine,
    m: Machine,
    start: u64,
) -> (n: Machine)
    requires
        from <= code.instructions.len(),
        executed(first, code.instructions, from) == Some(m),
        has_room(m, storage, code.temps, start, base_offset + size),
        code.temps + 6 * size <= usize::MAX,
        holds_bits(bits_ty),
        size <= bits_width(bits_ty),
    ensures
        ({
            let (after, result) = loaded_bits(bits_ty, size, storage, base_offset, code);
            let bytes = m.arrays[storage.bytes_var];
            &&& executed(first, after.instructions, from) == Some(n)
            &&& n.arrays == m.arrays
            &&& kept(m, n, code.temps)
            &&& goes_on(code, after, 6 * size as int)
            &&& value_of(n, result) == Some(
                narrowed(bits_ty, number_at(bytes, start + base_offset, size)),
            )
            &&& is_settled(result, after.temps)
            &&& operand_type(result) == bits_ty
        }),
    decreases size,
{
    reveal(loaded_bits);
    let bytes = m.arrays[storage.bytes_var];
    let at = start + base_offset;
    if size == 0 {
        kept_by_nothing(m, m, code.temps);
        assert((((0u64 << 32) as i64) >> 32) as u64 == 0) by (bit_vector);
        m
    } else if size == 1 {
        let n = byte_is_loaded(
            bits_ty,
            0,
            storage,
            base_offset,
            code,
            from,
            first,
            m,
            start,
            base_offset + size,
        );
        masked_byte(bytes[at]);
        assert(number_at(bytes, at, 0) == 0);
        assert(number_at(bytes, at, 1) == bytes[at] as u64);
        n
    } else {
        reveal(joined_byte);
        reveal_strlit("union_decode_or");
        let less = (size - 1) as nat;
        let index = (size - 1) as usize;
        let (code1, bits) = loaded_bits(bits_ty, less, storage, base_offset, code);
        let m1 = bits_are_loaded(
            bits_ty,
            less,
            storage,
            base_offset,
            code,
            from,
            first,
            m,
            start,
        );
        room_is_kept(m, m1, storage, code.temps, code1.temps, start, base_offset + size);
        let (code2, byte_value) = loaded_byte(bits_ty, index, storage, base_offset, code1);
        let m2 = byte_is_loaded(
            bits_ty,
            index,
            storage,
            base_offset,
            code1,
            from,
            first,
            m1,
            start,
            base_offset + size,
        );
        value_is_kept(m1, m2, code1.temps, bits);
        kept_by_both(m, m1, m2, code.temps, code1.temps);
        let (taken, combined_dest) = fresh(code2, "union_decode_or"@);
        let instruction = computes(BinaryOp::BitOr, combined_dest, bits, byte_value);
        one_more_step(first, taken, from, instruction);
        let high = (bytes[at + index] as u64) << ((8 * index) as u64);
        joined_and_narrowed(bits_ty, number_at(bytes, at, less), high);
        let x = narrowed(bits_ty, number_at(bytes, at, size));
        let n = assigned(m2, combined_dest, x);
        assert(stepped(m2, instruction) == Some(n));
        assignment_keeps(m2, "union_decode_or"@, code2.temps, x);
        kept_by_both(m, m2, n, code.temps, code2.temps);
        taken_is_settled("union_decode_or"@, code2.temps, next_number(code2.temps));
        n
    }
}

/// The bytes of a number stand for its first bytes.
pub proof fn number_is_put_together(bytes: Seq<u8>, start: int, x: u64, size: nat)
    requires
        0 <= start,
        start + size <= bytes.len(),
        size <= 8,
    ensures
        number_at(with_number(bytes, start, x, size as int), start, size) == low_bytes(
            x,
            size as int,
        ),
{
    number_of_part(bytes, start, x, size as int, size);
}

proof fn number_of_part(bytes: Seq<u8>, start: int, x: u64, size: int, part: nat)
    requires
        0 <= start,
        start + size <= bytes.len(),
        part <= size <= 8,
    ensures
        number_at(with_number(bytes, start, x, size), start, part) == low_bytes(x, part as int),
    decreases part,
{
    if part == 0 {
        assert(x & (((1u64 << 0u64) - 1) as u64) == 0) by (bit_vector);
    } else {
        number_of_part(bytes, start, x, size, (part - 1) as nat);
        let s: u64 = (8 * (part - 1)) as u64;
        let t: u64 = (8 * part) as u64;
        let y: u64 = (x >> s) & 0xff;
        assert(((x >> s) & 0xff) < 256) by (bit_vector);
        assert(byte_at(x, part - 1) as u64 == y);
        assert(s <= 48 && y == (x >> s) & 0xff && t == s + 8 ==> (
            x & (((1u64 << s) - 1) as u64)
        ) | (y << s) == x & (((1u64
            << t) - 1) as u64)) by (bit_vector);
        assert(y == (x >> 56) & 0xff ==> (x & (((1u64 << 56) - 1) as u64)) | (y << 56) == x)
            by (bit_vector);
    }
}

/// What is loaded from the bytes of a union right behind a store is what was stored: the bytes of
/// the number that the size asks for.
pub proof fn stored_bits_are_loaded(
    bits: OperandModel,
    bits_ty: TypeModel,
    size: nat,
    storage: UnionStorageModel,
    base_offset: usize,
    code: CodeModel,
    from: nat,
    first: Machine,
    m: Machine,
    start: u64,
    x: u64,
) -> (n: Machine)
    requires
        from <= code.instructions.len(),
        executed(first, code.instructions, from) == Some(m),
        has_room(m, storage, code.temps, start, base_offset + size),
        code.temps + 10 * size <= usize::MAX,
        holds_bits(bits_ty),
        operand_type(bits) == bits_ty,
        is_settled(bits, code.temps),
        size <= bits_width(bits_ty),
        value_of(m, bits) == Some(x),
    ensures
        ({
            let stored = stored_bits(bits, bits_ty, size, storage, base_offset, code);
            let (after, result) = loaded_bits(bits_ty, size, storage, base_offset, stored);
            &&& executed(first, after.instructions, from) == Some(n)
            &&& n.arrays == m.arrays.insert(
                storage.bytes_var,
                with_number(m.arrays[storage.bytes_var], start + base_offset, x, size as int),
            )
            &&& kept(m, n, code.temps)
            &&& goes_on(code, after, 10 * size as int)
            &&& value_of(n, result) == Some(narrowed(bits_ty, low_bytes(x, size as int)))
            &&& operand_type(result) == bits_ty
            &&& is_settled(result, after.temps)
        }),
{
    let stored = stored_bits(bits, bits_ty, size, storage, base_offset, code);
    let m1 = bits_are_stored(
        bits,
        bits_ty,
        size,
        storage,
        base_offset,
        code,
        from,
        first,
        m,
        start,
        x,
    );
    room_is_kept(m, m1, storage, code.temps, stored.temps, start, base_offset + size);
    let n = bits_are_loaded(
        bits_ty,
        size,
        storage,
        base_offset,
        stored,
        from,
        first,
        m1,
        start,
    );
    number_is_put_together(m.arrays[storage.bytes_var], start + base_offset, x, size);
    kept_by_both(m, m1, n, code.temps, stored.temps);
    n
}

} // verus!
