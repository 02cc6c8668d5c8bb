//! Values in the byte storage of unions: bits, scalars and objects, and the code that moves them.
use crate::code::{
    Code, CodeModel, args0, args1, args4, args7, array_get, array_new, array_store, binary,
    bool_operand, bool_value, byte_array, byte_array_type, calls_static, cast, class, class_type,
    computes, constant_operand, constant_value, construct, converts, emit, fresh, i32_operand,
    i32_value, i64_operand, i64_value, i8_operand, i8_value, make_args0, make_args1, make_args4,
    make_args7, make_params0, make_params1, make_params4, make_params7, make_typed2, makes_array,
    makes_object, object_array, object_array_type, object_class, object_type, operand_var,
    params0, params1, params4, params7, reads_element, runs_static, static_call, static_method,
    static_run, static_signature, stores_element, typed2, u64_operand, u64_value, variable,
};
use crate::descriptor::POINTER_CLASS;
use crate::oomir::{
    Duplicate,
    BinaryOp,
    Constant,
    ConstantModel,
    Instruction,
    InstructionModel,
    Operand,
    OperandModel,
    Signature, SignatureModel, Text, Type, TypeModel, same_type,
};
use vstd::prelude::*;
use vstd::string::*;

verus! {

/// The runtime class of unsigned 128-bit integers.
pub const U128_CLASS: &'static str = "org/rustlang/runtime/U128";

/// The runtime class of signed 128-bit integers.
pub const I128_CLASS: &'static str = "org/rustlang/runtime/I128";

/// The runtime class of 128-bit floating-point numbers.
pub const F128_CLASS: &'static str = "org/rustlang/runtime/F128";

/// The runtime class of numeric helpers.
pub const NUMBERS_CLASS: &'static str = "org/rustlang/runtime/Numbers";

/// The storage of a union: an array of bytes, an array of objects, and where the union starts in
/// them.
#[derive(Debug)]
pub struct UnionStorage {
    pub bytes_var: String,
    pub objects_var: String,
    pub base_offset: Operand,
}

/// The model of [`UnionStorage`].
pub struct UnionStorageModel {
    pub bytes_var: Text,
    pub objects_var: Text,
    pub base_offset: OperandModel,
}

impl DeepView for UnionStorage {
    type V = UnionStorageModel;

    open spec fn deep_view(&self) -> UnionStorageModel {
        UnionStorageModel {
            bytes_var: self.bytes_var@,
            objects_var: self.objects_var@,
            base_offset: self.base_offset.deep_view(),
        }
    }
}

/// A storage that starts with its arrays.
pub open spec fn storage_at_start(bytes_var: Text, objects_var: Text) -> UnionStorageModel {
    UnionStorageModel { bytes_var, objects_var, base_offset: i32_value(0) }
}

/// A storage that starts at a given position of its arrays.
pub open spec fn storage_at(
    bytes_var: Text,
    objects_var: Text,
    base_offset: OperandModel,
) -> UnionStorageModel {
    UnionStorageModel { bytes_var, objects_var, base_offset }
}

/// The number of type `i32` nearest to an integer.
pub open spec fn clamped(n: int) -> i32 {
    if n > i32::MAX {
        i32::MAX
    } else if n < i32::MIN {
        i32::MIN
    } else {
        n as i32
    }
}

/// The sum of two offsets; it wraps at the end of `usize`.
pub open spec fn offset_sum(a: usize, b: usize) -> usize {
    if a + b > usize::MAX {
        (a + b - usize::MAX - 1) as usize
    } else {
        (a + b) as usize
    }
}

/// The sum of two offsets.
pub fn add_offsets(a: usize, b: usize) -> (r: usize)
    ensures
        r == offset_sum(a, b),
{
    a.wrapping_add(b)
}

/// The position of a byte in the arrays of a storage, and the code that computes it.
#[verifier::opaque]
pub open spec fn byte_position(
    storage: UnionStorageModel,
    relative_offset: usize,
    code: CodeModel,
) -> (CodeModel, OperandModel) {
    match storage.base_offset {
        Operand::Constant(Constant::I32(base)) => (
            code,
            i32_value(clamped(base + relative_offset as i32)),
        ),
        _ => if relative_offset == 0 {
            (code, storage.base_offset)
        } else {
            let (code, dest) = fresh(code, "union_storage_offset"@);
            let code = emit(
                code,
                computes(
                    BinaryOp::Add,
                    dest,
                    storage.base_offset,
                    i32_value(relative_offset as i32),
                ),
            );
            (code, variable(dest, Type::I32))
        },
    }
}

impl UnionStorage {
    /// A storage that starts with its arrays.
    pub fn at_start(bytes_var: &str, objects_var: &str) -> (r: Self)
        ensures
            r.deep_view() == storage_at_start(bytes_var@, objects_var@),
    {
        UnionStorage {
            bytes_var: bytes_var.to_string(),
            objects_var: objects_var.to_string(),
            base_offset: i32_operand(0),
        }
    }

    /// A storage that starts at a given position of its arrays.
    pub fn at_offset(bytes_var: &str, objects_var: &str, base_offset: &Operand) -> (r: Self)
        ensures
            r.deep_view() == storage_at(bytes_var@, objects_var@, base_offset.deep_view()),
    {
        UnionStorage {
            bytes_var: bytes_var.to_string(),
            objects_var: objects_var.to_string(),
            base_offset: base_offset.dup(),
        }
    }

    /// The position of a byte in the arrays.
    pub fn byte_index(&self, relative_offset: usize, code: &mut Code) -> (r: Operand)
        ensures
            (final(code).deep_view(), r.deep_view()) == byte_position(
                self.deep_view(),
                relative_offset,
                old(code).deep_view(),
            ),
    {
        proof {
            reveal(byte_position);
        }
        match &self.base_offset {
            Operand::Constant(Constant::I32(base)) => {
                let offset: i32 = relative_offset as i32;
                let sum: i64 = *base as i64 + offset as i64;
                let near: i32 = if sum > i32::MAX as i64 {
                    i32::MAX
                } else if sum < i32::MIN as i64 {
                    i32::MIN
                } else {
                    sum as i32
                };
                i32_operand(near)
            },
            _ => {
                if relative_offset == 0 {
                    self.base_offset.dup()
                } else {
                    let dest = code.fresh("union_storage_offset");
                    code.push(
                        binary(
                            BinaryOp::Add,
                            dest.as_str(),
                            &self.base_offset,
                            &i32_operand(relative_offset as i32),
                        ),
                    );
                    operand_var(dest.as_str(), &Type::I32)
                }
            },
        }
    }
}

/// Makes the object array of a storage; without objects the shared empty array is used.
#[verifier::opaque]
pub open spec fn makes_objects(dest: Text, size: usize) -> InstructionModel {
    if size == 0 {
        calls_static(
            dest,
            POINTER_CLASS@,
            "emptyUnionObjectStorage"@,
            static_method(params0(), object_array()),
            args0(),
        )
    } else {
        makes_array(dest, object_class(), i32_value(size as i32))
    }
}

/// Makes the object array of a storage.
pub fn allocate_union_object_storage(dest: &str, size: usize) -> (r: Instruction)
    ensures
        r.deep_view() == makes_objects(dest@, size),
{
    proof {
        reveal(makes_objects);
    }
    if size == 0 {
        static_call(
            dest,
            POINTER_CLASS,
            "emptyUnionObjectStorage",
            &static_signature(&make_params0(), &object_array_type()),
            &make_args0(),
        )
    } else {
        array_new(dest, &object_type(), &i32_operand(size as i32))
    }
}

/// The low bytes of a discriminant.
pub open spec fn masked(value: u128, size: usize) -> u128 {
    if size >= 16 {
        value
    } else {
        value & (((1u128 << ((size * 8) as u128)) - 1) as u128)
    }
}

/// The low bytes of a discriminant.
pub fn masked_enum_discriminant_bits(value: u128, size: usize) -> (r: u128)
    ensures
        r == masked(value, size),
{
    if size >= 16 {
        value
    } else {
        let bits: u128 = (size * 8) as u128;
        assert(bits < 128 ==> (1u128 << bits) >= 1) by (bit_vector);
        let mask: u128 = (1u128 << bits) - 1;
        value & mask
    }
}

/// The low bytes of a discriminant as a number of 64 bits.
pub fn masked_enum_discriminant(value: u128, size: usize) -> (r: i64)
    ensures
        r == masked(value, size) as i64,
{
    masked_enum_discriminant_bits(value, size) as i64
}

/// The integer type in which the bytes of a scalar are taken apart.
pub open spec fn bits_type(rust_size: usize, oomir_ty: TypeModel) -> TypeModel {
    if oomir_ty is U64 {
        Type::U64
    } else if oomir_ty is I64 || oomir_ty is F64 || rust_size > 4 {
        Type::I64
    } else {
        Type::I32
    }
}

/// The integer type in which the bytes of a scalar are taken apart.
pub fn scalar_bits_type(rust_size: usize, oomir_ty: &Type) -> (r: Type)
    ensures
        r.deep_view() == bits_type(rust_size, oomir_ty.deep_view()),
{
    if matches!(oomir_ty, Type::U64) {
        Type::U64
    } else if matches!(oomir_ty, Type::I64 | Type::F64) || rust_size > 4 {
        Type::I64
    } else {
        Type::I32
    }
}

/// An integer constant of one of the types that hold bits.
pub open spec fn bits_constant(value: i64, ty: TypeModel) -> ConstantModel {
    if ty is U64 {
        Constant::U64(value as u64)
    } else if ty is I64 {
        Constant::I64(value)
    } else {
        Constant::I32(value as i32)
    }
}

/// An integer constant of one of the types that hold bits.
pub fn int_constant_for_type(value: i64, ty: &Type) -> (r: Constant)
    ensures
        r.deep_view() == bits_constant(value, ty.deep_view()),
{
    if matches!(ty, Type::U64) {
        Constant::U64(value as u64)
    } else if matches!(ty, Type::I64) {
        Constant::I64(value)
    } else {
        Constant::I32(value as i32)
    }
}

/// The mask of one byte in a type that holds bits.
pub open spec fn byte_mask(bits_ty: TypeModel) -> OperandModel {
    constant_value(bits_constant(0xff, bits_ty))
}

/// The mask of one byte in a type that holds bits.
pub fn byte_mask_operand(bits_ty: &Type) -> (r: Operand)
    ensures
        r.deep_view() == byte_mask(bits_ty.deep_view()),
{
    constant_operand(&int_constant_for_type(0xff, bits_ty))
}

/// How far the bits of a byte are shifted.
pub open spec fn byte_shift(index: usize) -> OperandModel {
    i32_value((index * 8) as i32)
}

/// How far the bits of a byte are shifted.
pub fn byte_shift_operand(index: usize) -> (r: Operand)
    ensures
        r.deep_view() == byte_shift(index),
{
    i32_operand((index as u128 * 8) as i32)
}

/// The bits of a value from one byte on.
#[verifier::opaque]
pub open spec fn shifted_byte(
    bits: OperandModel,
    bits_ty: TypeModel,
    index: usize,
    code: CodeModel,
) -> (CodeModel, OperandModel) {
    if index == 0 {
        (code, bits)
    } else {
        let (code, shift_dest) = fresh(code, "union_shift"@);
        let code = emit(code, computes(BinaryOp::Shr, shift_dest, bits, byte_shift(index)));
        (code, variable(shift_dest, bits_ty))
    }
}

/// Shifts the bits of a value down to one byte.
pub fn emit_shifted_byte(
    bits: &Operand,
    bits_ty: &Type,
    index: usize,
    code: &mut Code,
) -> (r: Operand)
    ensures
        (final(code).deep_view(), r.deep_view()) == shifted_byte(
            bits.deep_view(),
            bits_ty.deep_view(),
            index,
            old(code).deep_view(),
        ),
{
    proof {
        reveal(shifted_byte);
    }
    if index == 0 {
        bits.dup()
    } else {
        let shift_dest = code.fresh("union_shift");
        code.push(binary(BinaryOp::Shr, shift_dest.as_str(), bits, &byte_shift_operand(index)));
        operand_var(shift_dest.as_str(), bits_ty)
    }
}

/// Stores one byte of the bits of a value.
#[verifier::opaque]
pub open spec fn stored_byte(
    bits: OperandModel,
    bits_ty: TypeModel,
    index: usize,
    storage: UnionStorageModel,
    base_offset: usize,
    code: CodeModel,
) -> CodeModel {
    let (code, shifted) = shifted_byte(bits, bits_ty, index, code);
    let (code, masked_dest) = fresh(code, "union_mask"@);
    let code = emit(code, computes(BinaryOp::BitAnd, masked_dest, shifted, byte_mask(bits_ty)));
    let (code, byte_dest) = fresh(code, "union_byte"@);
    let code = emit(code, converts(variable(masked_dest, bits_ty), Type::I8, byte_dest));
    let (code, position) = byte_position(storage, offset_sum(base_offset, index), code);
    let code = emit(
        code,
        stores_element(storage.bytes_var, position, variable(byte_dest, Type::I8)),
    );
    code
}

/// Stores one byte of the bits of a value.
pub fn emit_byte_to_union(
    bits: &Operand,
    bits_ty: &Type,
    index: usize,
    storage: &UnionStorage,
    base_offset: usize,
    code: &mut Code,
)
    ensures
        final(code).deep_view() == stored_byte(
            bits.deep_view(),
            bits_ty.deep_view(),
            index,
            storage.deep_view(),
            base_offset,
            old(code).deep_view(),
        ),
{
    proof {
        reveal(stored_byte);
    }
    let shifted = emit_shifted_byte(bits, bits_ty, index, code);
    let masked_dest = code.fresh("union_mask");
    code.push(
        binary(BinaryOp::BitAnd, masked_dest.as_str(), &shifted, &byte_mask_operand(bits_ty)),
    );
    let byte_dest = code.fresh("union_byte");
    code.push(cast(&operand_var(masked_dest.as_str(), bits_ty), &Type::I8, byte_dest.as_str()));
    let position = UnionStorage::byte_index(storage, add_offsets(base_offset, index), code);
    code.push(
        array_store(
            storage.bytes_var.as_str(),
            &position,
            &operand_var(byte_dest.as_str(), &Type::I8),
        ),
    );
}

/// Stores the first bytes of the bits of a value, least significant byte first.
#[verifier::opaque]
pub open spec fn stored_bits(
    bits: OperandModel,
    bits_ty: TypeModel,
    size: nat,
    storage: UnionStorageModel,
    base_offset: usize,
    code: CodeModel,
) -> CodeModel
    decreases size,
{
    if size == 0 {
        code
    } else {
        let index = (size - 1) as usize;
        let code = stored_bits(bits, bits_ty, (size - 1) as nat, storage, base_offset, code);
        stored_byte(bits, bits_ty, index, storage, base_offset, code)
    }
}

/// Stores the bytes of the bits of a value, least significant byte first.
pub fn emit_bits_to_union_bytes(
    bits_operand: &Operand,
    bits_ty: &Type,
    rust_size: usize,
    storage: &UnionStorage,
    base_offset: usize,
    code: &mut Code,
)
    ensures
        final(code).deep_view() == stored_bits(
            bits_operand.deep_view(),
            bits_ty.deep_view(),
            rust_size as nat,
            storage.deep_view(),
            base_offset,
            old(code).deep_view(),
        ),
{
    proof {
        reveal(stored_bits);
    }
    let ghost start = code.deep_view();
    for index in 0..rust_size
        invariant
            code.deep_view() == stored_bits(
                bits_operand.deep_view(),
                bits_ty.deep_view(),
                index as nat,
                storage.deep_view(),
                base_offset,
                start,
            ),
    {
        proof {
            reveal(stored_bits);
        }
        emit_byte_to_union(bits_operand, bits_ty, index, storage, base_offset, code);
    }
}

/// One byte of storage as a number of the type that collects the bits, not yet shifted.
#[verifier::opaque]
pub open spec fn loaded_byte(
    bits_ty: TypeModel,
    index: usize,
    storage: UnionStorageModel,
    base_offset: usize,
    code: CodeModel,
) -> (CodeModel, OperandModel) {
    let (code, raw_dest) = fresh(code, "union_raw_byte"@);
    let (code, position) = byte_position(storage, offset_sum(base_offset, index), code);
    let code = emit(
        code,
        reads_element(raw_dest, variable(storage.bytes_var, byte_array()), position),
    );
    let (code, widened_dest) = fresh(code, "union_wide_byte"@);
    let code = emit(code, converts(variable(raw_dest, Type::I8), bits_ty, widened_dest));
    let (code, masked_dest) = fresh(code, "union_masked_byte"@);
    let code = emit(
        code,
        computes(
            BinaryOp::BitAnd,
            masked_dest,
            variable(widened_dest, bits_ty),
            byte_mask(bits_ty),
        ),
    );
    if index == 0 {
        (code, variable(masked_dest, bits_ty))
    } else {
        let (code, shifted_dest) = fresh(code, "union_decode_shift"@);
        let code = emit(
            code,
            computes(
                BinaryOp::Shl,
                shifted_dest,
                variable(masked_dest, bits_ty),
                byte_shift(index),
            ),
        );
        (code, variable(shifted_dest, bits_ty))
    }
}

/// Loads one byte as a number of the type that collects the bits.
pub fn emit_byte_from_union(
    bits_ty: &Type,
    index: usize,
    storage: &UnionStorage,
    base_offset: usize,
    code: &mut Code,
) -> (r: Operand)
    ensures
        (final(code).deep_view(), r.deep_view()) == loaded_byte(
            bits_ty.deep_view(),
            index,
            storage.deep_view(),
            base_offset,
            old(code).deep_view(),
        ),
{
    proof {
        reveal(loaded_byte);
    }
    let raw_dest = code.fresh("union_raw_byte");
    let position = UnionStorage::byte_index(storage, add_offsets(base_offset, index), code);
    code.push(
        array_get(
            raw_dest.as_str(),
            &operand_var(storage.bytes_var.as_str(), &byte_array_type()),
            &position,
        ),
    );
    let widened_dest = code.fresh("union_wide_byte");
    code.push(cast(&operand_var(raw_dest.as_str(), &Type::I8), bits_ty, widened_dest.as_str()));
    let masked_dest = code.fresh("union_masked_byte");
    code.push(
        binary(
            BinaryOp::BitAnd,
            masked_dest.as_str(),
            &operand_var(widened_dest.as_str(), bits_ty),
            &byte_mask_operand(bits_ty),
        ),
    );
    if index == 0 {
        operand_var(masked_dest.as_str(), bits_ty)
    } else {
        let shifted_dest = code.fresh("union_decode_shift");
        code.push(
            binary(
                BinaryOp::Shl,
                shifted_dest.as_str(),
                &operand_var(masked_dest.as_str(), bits_ty),
                &byte_shift_operand(index),
            ),
        );
        operand_var(shifted_dest.as_str(), bits_ty)
    }
}

/// One more byte joined to the bits that are collected.
#[verifier::opaque]
pub open spec fn joined_byte(
    bits: OperandModel,
    bits_ty: TypeModel,
    index: usize,
    storage: UnionStorageModel,
    base_offset: usize,
    code: CodeModel,
) -> (CodeModel, OperandModel) {
    let (code, byte_value) = loaded_byte(bits_ty, index, storage, base_offset, code);
    let (code, combined_dest) = fresh(code, "union_decode_or"@);
    let code = emit(code, computes(BinaryOp::BitOr, combined_dest, bits, byte_value));
    (code, variable(combined_dest, bits_ty))
}

/// Joins one more byte to the bits that are collected.
pub fn emit_joined_byte(
    bits: &Operand,
    bits_ty: &Type,
    index: usize,
    storage: &UnionStorage,
    base_offset: usize,
    code: &mut Code,
) -> (r: Operand)
    ensures
        (final(code).deep_view(), r.deep_view()) == joined_byte(
            bits.deep_view(),
            bits_ty.deep_view(),
            index,
            storage.deep_view(),
            base_offset,
            old(code).deep_view(),
        ),
{
    proof {
        reveal(joined_byte);
    }
    let byte_value = emit_byte_from_union(bits_ty, index, storage, base_offset, code);
    let combined_dest = code.fresh("union_decode_or");
    code.push(binary(BinaryOp::BitOr, combined_dest.as_str(), bits, &byte_value));
    operand_var(combined_dest.as_str(), bits_ty)
}

/// The zero of a type that holds bits.
pub open spec fn zero_bits(bits_ty: TypeModel) -> OperandModel {
    match bits_ty {
        Type::I64 => i64_value(0),
        Type::U64 => u64_value(0),
        _ => i32_value(0),
    }
}

/// The bits of the first bytes of storage, least significant byte first.
#[verifier::opaque]
pub open spec fn loaded_bits(
    bits_ty: TypeModel,
    size: nat,
    storage: UnionStorageModel,
    base_offset: usize,
    code: CodeModel,
) -> (CodeModel, OperandModel)
    decreases size,
{
    if size == 0 {
        (code, zero_bits(bits_ty))
    } else if size == 1 {
        loaded_byte(bits_ty, 0, storage, base_offset, code)
    } else {
        let (code, bits) = loaded_bits(bits_ty, (size - 1) as nat, storage, base_offset, code);
        joined_byte(bits, bits_ty, (size - 1) as usize, storage, base_offset, code)
    }
}

/// Loads bytes as bits, least significant byte first.
pub fn emit_bits_from_union_bytes(
    bits_ty: &Type,
    rust_size: usize,
    storage: &UnionStorage,
    base_offset: usize,
    code: &mut Code,
) -> (r: Operand)
    ensures
        (final(code).deep_view(), r.deep_view()) == loaded_bits(
            bits_ty.deep_view(),
            rust_size as nat,
            storage.deep_view(),
            base_offset,
            old(code).deep_view(),
        ),
{
    proof {
        reveal(loaded_bits);
    }
    if rust_size == 0 {
        return match bits_ty {
            Type::I64 => i64_operand(0),
            Type::U64 => u64_operand(0),
            _ => i32_operand(0),
        };
    }
    let ghost start = code.deep_view();
    let mut bits = emit_byte_from_union(bits_ty, 0, storage, base_offset, code);
    for index in 1..rust_size
        invariant
            (code.deep_view(), bits.deep_view()) == loaded_bits(
                bits_ty.deep_view(),
                index as nat,
                storage.deep_view(),
                base_offset,
                start,
            ),
    {
        proof {
            reveal(loaded_bits);
        }
        bits = emit_joined_byte(&bits, bits_ty, index, storage, base_offset, code);
    }
    bits
}

/// The upper half of a 128-bit number.
pub open spec fn high_half(value: u128) -> i64 {
    (value >> 64) as i64
}

/// A 128-bit number as an object of the runtime.
#[verifier::opaque]
pub open spec fn wide_constant(value: u128, code: CodeModel) -> (CodeModel, OperandModel) {
    let (code, dest) = fresh(code, "enum_u128_tag_constant"@);
    let code = emit(
        code,
        makes_object(
            dest,
            U128_CLASS@,
            typed2(i64_value(high_half(value)), Type::I64, i64_value(low_half(value)), Type::I64),
        ),
    );
    (code, variable(dest, class(U128_CLASS@)))
}

/// Makes a 128-bit number.
pub fn emit_u128_constant(value: u128, code: &mut Code) -> (r: Operand)
    ensures
        (final(code).deep_view(), r.deep_view()) == wide_constant(value, old(code).deep_view()),
{
    proof {
        reveal(wide_constant);
    }
    let dest = code.fresh("enum_u128_tag_constant");
    code.push(
        construct(
            dest.as_str(),
            U128_CLASS,
            &make_typed2(
                &i64_operand(high_half_of(value)),
                &Type::I64,
                &i64_operand(low_half_of(value)),
                &Type::I64,
            ),
        ),
    );
    operand_var(dest.as_str(), &class_type(U128_CLASS))
}

/// The lower half of a 128-bit number.
pub open spec fn low_half(value: u128) -> i64 {
    value as i64
}

/// The upper half of a 128-bit number.
pub fn high_half_of(value: u128) -> (r: i64)
    ensures
        r == high_half(value),
{
    (value >> 64) as i64
}

/// The lower half of a 128-bit number.
pub fn low_half_of(value: u128) -> (r: i64)
    ensures
        r == low_half(value),
{
    value as i64
}

/// One byte of a 128-bit number.
pub open spec fn byte_of(value: u128, index: usize) -> i8 {
    (value >> ((index * 8) as u128)) as i8
}

/// One byte of a 128-bit number.
pub fn byte_of_number(value: u128, index: usize) -> (r: i8)
    requires
        index < 16,
    ensures
        r == byte_of(value, index),
{
    (value >> ((index * 8) as u128)) as i8
}

/// Stores one byte of a 128-bit tag.
#[verifier::opaque]
pub open spec fn stored_tag_byte(
    value: u128,
    index: usize,
    storage: UnionStorageModel,
    base_offset: usize,
    code: CodeModel,
) -> CodeModel {
    let (code, position) = byte_position(storage, offset_sum(base_offset, index), code);
    let code = emit(
        code,
        stores_element(storage.bytes_var, position, i8_value(byte_of(value, index))),
    );
    code
}

/// Stores one byte of a 128-bit tag.
pub fn emit_tag_byte(
    value: u128,
    index: usize,
    storage: &UnionStorage,
    base_offset: usize,
    code: &mut Code,
)
    requires
        index < 16,
    ensures
        final(code).deep_view() == stored_tag_byte(
            value,
            index,
            storage.deep_view(),
            base_offset,
            old(code).deep_view(),
        ),
{
    proof {
        reveal(stored_tag_byte);
    }
    let position = UnionStorage::byte_index(storage, add_offsets(base_offset, index), code);
    code.push(
        array_store(
            storage.bytes_var.as_str(),
            &position,
            &i8_operand(byte_of_number(value, index)),
        ),
    );
}

/// Stores the first bytes of a 128-bit tag, least significant byte first.
#[verifier::opaque]
pub open spec fn stored_tag(
    value: u128,
    size: nat,
    storage: UnionStorageModel,
    base_offset: usize,
    code: CodeModel,
) -> CodeModel
    decreases size,
{
    if size == 0 {
        code
    } else {
        let code = stored_tag(value, (size - 1) as nat, storage, base_offset, code);
        stored_tag_byte(value, (size - 1) as usize, storage, base_offset, code)
    }
}

/// Stores a 128-bit tag, least significant byte first.
pub fn emit_u128_tag_to_union_bytes(
    value: u128,
    storage: &UnionStorage,
    base_offset: usize,
    code: &mut Code,
)
    ensures
        final(code).deep_view() == stored_tag(
            value,
            16,
            storage.deep_view(),
            base_offset,
            old(code).deep_view(),
        ),
{
    proof {
        reveal(stored_tag);
    }
    let ghost start = code.deep_view();
    for index in 0..16usize
        invariant
            code.deep_view() == stored_tag(
                value,
                index as nat,
                storage.deep_view(),
                base_offset,
                start,
            ),
    {
        proof {
            reveal(stored_tag);
        }
        emit_tag_byte(value, index, storage, base_offset, code);
    }
}

/// The signature of the runtime methods that read a 128-bit integer.
pub open spec fn wide_reader(ret: TypeModel) -> SignatureModel {
    static_method(
        params4(
            "bytes"@,
            byte_array(),
            "offset"@,
            Type::I32,
            "size"@,
            Type::I32,
            "signed"@,
            Type::Boolean,
        ),
        ret,
    )
}

/// The signature of the runtime methods that read a 128-bit integer.
pub fn wide_reader_signature(ret: &Type) -> (r: Signature)
    ensures
        r.deep_view() == wide_reader(ret.deep_view()),
{
    static_signature(
        &make_params4(
            "bytes",
            &byte_array_type(),
            "offset",
            &Type::I32,
            "size",
            &Type::I32,
            "signed",
            &Type::Boolean,
        ),
        ret,
    )
}

/// A 128-bit tag read from storage.
#[verifier::opaque]
pub open spec fn loaded_tag(
    storage: UnionStorageModel,
    base_offset: usize,
    code: CodeModel,
) -> (CodeModel, OperandModel) {
    let (code, offset) = byte_position(storage, base_offset, code);
    let (code, dest) = fresh(code, "enum_u128_tag"@);
    let code = emit(
        code,
        calls_static(
            dest,
            POINTER_CLASS@,
            "u128FromBytes"@,
            wide_reader(class(U128_CLASS@)),
            args4(
                variable(storage.bytes_var, byte_array()),
                offset,
                i32_value(16),
                bool_value(false),
            ),
        ),
    );
    (code, variable(dest, class(U128_CLASS@)))
}

/// Loads a 128-bit tag.
pub fn emit_u128_tag_from_union_bytes(
    storage: &UnionStorage,
    base_offset: usize,
    code: &mut Code,
) -> (r: Operand)
    ensures
        (
            final(code).deep_view(),
            r.deep_view(),
        ) == loaded_tag(storage.deep_view(), base_offset, old(code).deep_view()),
{
    proof {
        reveal(loaded_tag);
    }
    let offset = UnionStorage::byte_index(storage, base_offset, code);
    let dest = code.fresh("enum_u128_tag");
    code.push(
        static_call(
            dest.as_str(),
            POINTER_CLASS,
            "u128FromBytes",
            &wide_reader_signature(&class_type(U128_CLASS)),
            &make_args4(
                &operand_var(storage.bytes_var.as_str(), &byte_array_type()),
                &offset,
                &i32_operand(16),
                &bool_operand(false),
            ),
        ),
    );
    operand_var(dest.as_str(), &class_type(U128_CLASS))
}

/// Stores an object beside the bytes.
#[verifier::opaque]
pub open spec fn stored_object(
    source: OperandModel,
    storage: UnionStorageModel,
    base_offset: usize,
    code: CodeModel,
) -> CodeModel {
    let (code, position) = byte_position(storage, base_offset, code);
    let code = emit(code, stores_element(storage.objects_var, position, source));
    code
}

/// Stores an object beside the bytes.
pub fn emit_object_to_union_storage(
    source: &Operand,
    storage: &UnionStorage,
    base_offset: usize,
    code: &mut Code,
)
    ensures
        final(code).deep_view() == stored_object(
            source.deep_view(),
            storage.deep_view(),
            base_offset,
            old(code).deep_view(),
        ),
{
    proof {
        reveal(stored_object);
    }
    let position = UnionStorage::byte_index(storage, base_offset, code);
    code.push(array_store(storage.objects_var.as_str(), &position, source));
}

/// The object that stands beside the bytes.
#[verifier::opaque]
pub open spec fn loaded_object(
    target_ty: TypeModel,
    storage: UnionStorageModel,
    base_offset: usize,
    code: CodeModel,
) -> (CodeModel, OperandModel) {
    let (code, position) = byte_position(storage, base_offset, code);
    let (code, object_dest) = fresh(code, "union_object"@);
    let code = emit(
        code,
        reads_element(object_dest, variable(storage.objects_var, object_array()), position),
    );
    if (target_ty == object_class()) {
        (code, variable(object_dest, target_ty))
    } else {
        let (code, typed_dest) = fresh(code, "union_typed_object"@);
        let code = emit(
            code,
            converts(variable(object_dest, object_class()), target_ty, typed_dest),
        );
        (code, variable(typed_dest, target_ty))
    }
}

/// Loads the object that stands beside the bytes.
pub fn emit_object_from_union_storage(
    target_ty: &Type,
    storage: &UnionStorage,
    base_offset: usize,
    code: &mut Code,
) -> (r: Operand)
    ensures
        (final(code).deep_view(), r.deep_view()) == loaded_object(
            target_ty.deep_view(),
            storage.deep_view(),
            base_offset,
            old(code).deep_view(),
        ),
{
    proof {
        reveal(loaded_object);
    }
    let position = UnionStorage::byte_index(storage, base_offset, code);
    let object_dest = code.fresh("union_object");
    code.push(
        array_get(
            object_dest.as_str(),
            &operand_var(storage.objects_var.as_str(), &object_array_type()),
            &position,
        ),
    );
    if same_type(target_ty, &object_type()) {
        operand_var(object_dest.as_str(), target_ty)
    } else {
        let typed_dest = code.fresh("union_typed_object");
        code.push(
            cast(
                &operand_var(object_dest.as_str(), &object_type()),
                target_ty,
                typed_dest.as_str(),
            ),
        );
        operand_var(typed_dest.as_str(), target_ty)
    }
}

/// The smaller of a size and that of an address.
pub open spec fn address_size(rust_size: usize) -> usize {
    if rust_size < 8 {
        rust_size
    } else {
        8
    }
}

/// Stores a zero byte.
#[verifier::opaque]
pub open spec fn zeroed_byte(
    index: usize,
    storage: UnionStorageModel,
    base_offset: usize,
    code: CodeModel,
) -> CodeModel {
    let (code, position) = byte_position(storage, offset_sum(base_offset, index), code);
    let code = emit(code, stores_element(storage.bytes_var, position, i8_value(0)));
    code
}

/// Stores a zero byte.
pub fn emit_zero_byte(index: usize, storage: &UnionStorage, base_offset: usize, code: &mut Code)
    ensures
        final(code).deep_view() == zeroed_byte(
            index,
            storage.deep_view(),
            base_offset,
            old(code).deep_view(),
        ),
{
    proof {
        reveal(zeroed_byte);
    }
    let position = UnionStorage::byte_index(storage, add_offsets(base_offset, index), code);
    code.push(array_store(storage.bytes_var.as_str(), &position, &i8_operand(0)));
}

/// Stores zero bytes from behind the address up to a position.
#[verifier::opaque]
pub open spec fn zeroed_bytes(
    from: usize,
    to: nat,
    storage: UnionStorageModel,
    base_offset: usize,
    code: CodeModel,
) -> CodeModel
    decreases to,
{
    if to <= from {
        code
    } else {
        let code = zeroed_bytes(from, (to - 1) as nat, storage, base_offset, code);
        zeroed_byte((to - 1) as usize, storage, base_offset, code)
    }
}

/// Stores zero bytes from one position up to another.
pub fn emit_zero_bytes(
    from: usize,
    to: usize,
    storage: &UnionStorage,
    base_offset: usize,
    code: &mut Code,
)
    ensures
        final(code).deep_view() == zeroed_bytes(
            from,
            to as nat,
            storage.deep_view(),
            base_offset,
            old(code).deep_view(),
        ),
{
    proof {
        reveal(zeroed_bytes);
    }
    let ghost start = code.deep_view();
    let mut index: usize = from;
    while index < to
        invariant
            from <= to ==> from <= index <= to,
            from > to ==> index == from,
            code.deep_view() == zeroed_bytes(
                from,
                (if from <= to { index as nat } else { to as nat }),
                storage.deep_view(),
                base_offset,
                start,
            ),
        decreases to - index,
    {
        proof {
            reveal(zeroed_bytes);
        }
        emit_zero_byte(index, storage, base_offset, code);
        index = index + 1;
    }
}

/// Stores the address under which the runtime finds an object, then the object itself.
#[verifier::opaque]
pub open spec fn stored_managed_object(
    source: OperandModel,
    rust_size: usize,
    storage: UnionStorageModel,
    base_offset: usize,
    code: CodeModel,
) -> CodeModel {
    let (code, address) = object_address(source, code);
    let size = address_size(rust_size);
    let code = stored_bits(address, Type::U64, size as nat, storage, base_offset, code);
    let code = zeroed_bytes(size, rust_size as nat, storage, base_offset, code);
    stored_object(source, storage, base_offset, code)
}

/// The address under which the runtime finds an object.
#[verifier::opaque]
pub open spec fn object_address(
    source: OperandModel,
    code: CodeModel,
) -> (CodeModel, OperandModel) {
    let (code, address_dest) = fresh(code, "union_managed_object_address"@);
    let code = emit(
        code,
        calls_static(
            address_dest,
            POINTER_CLASS@,
            "managedObjectAddress"@,
            static_method(params1("value"@, object_class()), Type::U64),
            args1(source),
        ),
    );
    (code, variable(address_dest, Type::U64))
}

/// Asks the runtime for the address of an object.
pub fn emit_object_address(source: &Operand, code: &mut Code) -> (r: Operand)
    ensures
        (
            final(code).deep_view(),
            r.deep_view(),
        ) == object_address(source.deep_view(), old(code).deep_view()),
{
    proof {
        reveal(object_address);
    }
    let address_dest = code.fresh("union_managed_object_address");
    code.push(
        static_call(
            address_dest.as_str(),
            POINTER_CLASS,
            "managedObjectAddress",
            &static_signature(&make_params1("value", &object_type()), &Type::U64),
            &make_args1(source),
        ),
    );
    operand_var(address_dest.as_str(), &Type::U64)
}

/// Stores an object: the bytes of its address, zeros up to the size, and the object beside them.
pub fn emit_managed_object_to_union_bytes(
    source: &Operand,
    rust_size: usize,
    storage: &UnionStorage,
    base_offset: usize,
    code: &mut Code,
)
    ensures
        final(code).deep_view() == stored_managed_object(
            source.deep_view(),
            rust_size,
            storage.deep_view(),
            base_offset,
            old(code).deep_view(),
        ),
{
    proof {
        reveal(stored_managed_object);
    }
    let address = emit_object_address(source, code);
    let size: usize = if rust_size < 8 { rust_size } else { 8 };
    emit_bits_to_union_bytes(&address, &Type::U64, size, storage, base_offset, code);
    emit_zero_bytes(size, rust_size, storage, base_offset, code);
    emit_object_to_union_storage(source, storage, base_offset, code);
}

/// The object that the runtime finds under an address.
#[verifier::opaque]
pub open spec fn addressed_object(
    bits: OperandModel,
    target_ty: TypeModel,
    code: CodeModel,
) -> (CodeModel, OperandModel) {
    let (code, object_dest) = fresh(code, "union_managed_object"@);
    let code = emit(
        code,
        calls_static(
            object_dest,
            POINTER_CLASS@,
            "managedObjectFromAddress"@,
            static_method(params1("address"@, Type::U64), object_class()),
            args1(bits),
        ),
    );
    if (target_ty == object_class()) {
        (code, variable(object_dest, target_ty))
    } else {
        let (code, typed_dest) = fresh(code, "union_typed_managed_object"@);
        let code = emit(
            code,
            converts(variable(object_dest, object_class()), target_ty, typed_dest),
        );
        (code, variable(typed_dest, target_ty))
    }
}

/// Asks the runtime for the object under an address.
pub fn emit_object_at_address(bits: &Operand, target_ty: &Type, code: &mut Code) -> (r: Operand)
    ensures
        (
            final(code).deep_view(),
            r.deep_view(),
        ) == addressed_object(bits.deep_view(), target_ty.deep_view(), old(code).deep_view()),
{
    proof {
        reveal(addressed_object);
    }
    let object_dest = code.fresh("union_managed_object");
    code.push(
        static_call(
            object_dest.as_str(),
            POINTER_CLASS,
            "managedObjectFromAddress",
            &static_signature(&make_params1("address", &Type::U64), &object_type()),
            &make_args1(bits),
        ),
    );
    if same_type(target_ty, &object_type()) {
        operand_var(object_dest.as_str(), target_ty)
    } else {
        let typed_dest = code.fresh("union_typed_managed_object");
        code.push(
            cast(
                &operand_var(object_dest.as_str(), &object_type()),
                target_ty,
                typed_dest.as_str(),
            ),
        );
        operand_var(typed_dest.as_str(), target_ty)
    }
}

/// The object whose address is stored.
#[verifier::opaque]
pub open spec fn loaded_managed_object(
    target_ty: TypeModel,
    rust_size: usize,
    storage: UnionStorageModel,
    base_offset: usize,
    code: CodeModel,
) -> (CodeModel, OperandModel) {
    let (code, bits) = loaded_bits(
        Type::I64,
        address_size(rust_size) as nat,
        storage,
        base_offset,
        code,
    );
    addressed_object(bits, target_ty, code)
}

/// Loads the object whose address is stored.
pub fn emit_managed_object_from_union_bytes(
    target_ty: &Type,
    rust_size: usize,
    storage: &UnionStorage,
    base_offset: usize,
    code: &mut Code,
) -> (r: Operand)
    ensures
        (final(code).deep_view(), r.deep_view()) == loaded_managed_object(
            target_ty.deep_view(),
            rust_size,
            storage.deep_view(),
            base_offset,
            old(code).deep_view(),
        ),
{
    proof {
        reveal(loaded_managed_object);
    }
    let size: usize = if rust_size < 8 { rust_size } else { 8 };
    let bits = emit_bits_from_union_bytes(&Type::I64, size, storage, base_offset, code);
    emit_object_at_address(&bits, target_ty, code)
}

/// Copies bytes and objects from one storage to another.
#[verifier::opaque]
pub open spec fn copied_storage(
    source: UnionStorageModel,
    source_offset: usize,
    target: UnionStorageModel,
    target_offset: usize,
    size: usize,
    code: CodeModel,
) -> CodeModel {
    let (code, source_index) = byte_position(source, source_offset, code);
    let (code, target_index) = byte_position(target, target_offset, code);
    let code = emit(
        code,
        runs_static(
            POINTER_CLASS@,
            "copyUnionStorage"@,
            static_method(
                params7(
                    "source_bytes"@,
                    byte_array(),
                    "source_objects"@,
                    object_array(),
                    "source_offset"@,
                    Type::I32,
                    "target_bytes"@,
                    byte_array(),
                    "target_objects"@,
                    object_array(),
                    "target_offset"@,
                    Type::I32,
                    "size"@,
                    Type::I32,
                ),
                Type::Void,
            ),
            args7(
                variable(source.bytes_var, byte_array()),
                variable(source.objects_var, object_array()),
                source_index,
                variable(target.bytes_var, byte_array()),
                variable(target.objects_var, object_array()),
                target_index,
                i32_value(small_number(size)),
            ),
        ),
    );
    code
}

/// Copies bytes and objects from one storage to another.
pub fn emit_union_storage_copy(
    source: &UnionStorage,
    source_offset: usize,
    target: &UnionStorage,
    target_offset: usize,
    size: usize,
    code: &mut Code,
)
    requires
        size <= i32::MAX,
    ensures
        final(code).deep_view() == copied_storage(
            source.deep_view(),
            source_offset,
            target.deep_view(),
            target_offset,
            size,
            old(code).deep_view(),
        ),
{
    proof {
        reveal(copied_storage);
    }
    let source_index = UnionStorage::byte_index(source, source_offset, code);
    let target_index = UnionStorage::byte_index(target, target_offset, code);
    code.push(
        static_run(
            POINTER_CLASS,
            "copyUnionStorage",
            &static_signature(
                &make_params7(
                    "source_bytes",
                    &byte_array_type(),
                    "source_objects",
                    &object_array_type(),
                    "source_offset",
                    &Type::I32,
                    "target_bytes",
                    &byte_array_type(),
                    "target_objects",
                    &object_array_type(),
                    "target_offset",
                    &Type::I32,
                    "size",
                    &Type::I32,
                ),
                &Type::Void,
            ),
            &make_args7(
                &operand_var(source.bytes_var.as_str(), &byte_array_type()),
                &operand_var(source.objects_var.as_str(), &object_array_type()),
                &source_index,
                &operand_var(target.bytes_var.as_str(), &byte_array_type()),
                &operand_var(target.objects_var.as_str(), &object_array_type()),
                &target_index,
                &i32_operand(small_number_of(size)),
            ),
        ),
    );
}

/// A number that fits the JVM as a number of type `i32`.
pub open spec fn small_number(n: usize) -> i32 {
    n as i32
}

/// A number that fits the JVM as a number of type `i32`.
pub fn small_number_of(n: usize) -> (r: i32)
    ensures
        r == small_number(n),
{
    n as i32
}

} // verus!
