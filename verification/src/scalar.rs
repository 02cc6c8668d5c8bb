//! Numbers, characters and truth values in the byte storage of unions.
use crate::code::{
    Code, CodeModel, args1, args2, args4, array_store, bool_operand, bool_value, byte_array,
    byte_array_type, calls_static, cast, converts, emit, fresh, i32_operand, i32_value,
    make_args1, make_args2, make_args4, make_params1, make_params2, operand_var, outcome_model,
    params1, params2, static_call, static_method, static_signature, stores_element, unit_outcome,
    variable,
};
use crate::descriptor::POINTER_CLASS;
use crate::oomir::{Duplicate, Operand, OperandModel, Text, Type, TypeModel, operand_type,
    same_type};
use crate::rust_type::{
    FloatKind, IntKind, RustType, TypeKind, UintKind, layout_size_bytes, lowered, size_of,
};
use crate::text::cat2;
use crate::union_storage::{
    NUMBERS_CLASS, UnionStorage, UnionStorageModel, add_offsets, bits_type, byte_position,
    emit_bits_from_union_bytes, emit_bits_to_union_bytes, loaded_bits, offset_sum,
    scalar_bits_type, small_number, small_number_of, stored_bits, wide_reader,
    wide_reader_signature,
};
use vstd::prelude::*;
use vstd::string::*;

verus! {

/// The bits of a scalar: the operand that holds them, its type, and how many bytes count.
pub open spec fn bits_triple(
    bits: OperandModel,
    ty: TypeModel,
    size: usize,
) -> (OperandModel, TypeModel, usize) {
    (bits, ty, size)
}

fn make_bits(bits: &Operand, ty: &Type, size: usize) -> (r: (Operand, Type, usize))
    ensures
        r.deep_view() == bits_triple(bits.deep_view(), ty.deep_view(), size),
{
    (bits.dup(), ty.dup(), size)
}

/// The bits of a scalar as a number of a type that can be taken apart.
#[verifier::opaque]
pub open spec fn scalar_bits(
    ty: RustType,
    source: OperandModel,
    code: CodeModel,
) -> (CodeModel, Result<(OperandModel, TypeModel, usize), Text>) {
    match size_of(ty) {
        Err(error) => (code, Err(error)),
        Ok(rust_size) => {
            match ty.kind {
                TypeKind::Float(FloatKind::F16) => {
                    let (code, dest) = fresh(code, "union_f16_bits"@);
                    let code = emit(
                        code,
                        calls_static(
                            dest,
                            NUMBERS_CLASS@,
                            "f16ToBits"@,
                            static_method(params1("value"@, Type::F16), Type::U16),
                            args1(source),
                        ),
                    );
                    (code, Ok(bits_triple(variable(dest, Type::U16), Type::U16, rust_size)))
                },
                TypeKind::Float(FloatKind::F32) => {
                    let (code, dest) = fresh(code, "union_f32_bits"@);
                    let code = emit(
                        code,
                        calls_static(
                            dest,
                            "java/lang/Float"@,
                            "floatToRawIntBits"@,
                            static_method(params1("value"@, Type::F32), Type::I32),
                            args1(source),
                        ),
                    );
                    (code, Ok(bits_triple(variable(dest, Type::I32), Type::I32, rust_size)))
                },
                TypeKind::Float(FloatKind::F64) => {
                    let (code, dest) = fresh(code, "union_f64_bits"@);
                    let code = emit(
                        code,
                        calls_static(
                            dest,
                            "java/lang/Double"@,
                            "doubleToRawLongBits"@,
                            static_method(params1("value"@, Type::F64), Type::I64),
                            args1(source),
                        ),
                    );
                    (code, Ok(bits_triple(variable(dest, Type::I64), Type::I64, rust_size)))
                },
                TypeKind::Float(_) => {
                    (code, Err(("unsupported float width in union field: "@ + ty.text@)))
                },
                TypeKind::Int(IntKind::I128) | TypeKind::Uint(UintKind::U128) => {
                    (code, Err(("unsupported wide integer union field: "@ + ty.text@)))
                },
                TypeKind::Bool | TypeKind::Char | TypeKind::Int(_) | TypeKind::Uint(_) => {
                    let bits_ty = bits_type(rust_size, lowered(ty));
                    if (operand_type(source) == bits_ty) {
                        (code, Ok(bits_triple(source, bits_ty, rust_size)))
                    } else {
                        let (code, dest) = fresh(code, "union_bits"@);
                        let code = emit(code, converts(source, bits_ty, dest));
                        (code, Ok(bits_triple(variable(dest, bits_ty), bits_ty, rust_size)))
                    }
                },
                _ => {
                    (code, Err(("unsupported scalar union field: "@ + ty.text@)))
                },
            }
        },
    }
}

/// Turns a scalar into a number whose bytes can be taken apart.
pub fn scalar_bit_operand_for_union(
    ty: &RustType,
    source: &Operand,
    code: &mut Code,
) -> (r: Result<(Operand, Type, usize), String>)
    ensures
        (
            final(code).deep_view(),
            outcome_model(r),
        ) == scalar_bits(*ty, source.deep_view(), old(code).deep_view()),
{
    proof {
        reveal(scalar_bits);
    }
    let rust_size = match layout_size_bytes(ty) {
        Ok(value) => value,
        Err(error) => return Err(error),
    };
    match &ty.kind {
        TypeKind::Float(FloatKind::F16) => {
            let dest = code.fresh("union_f16_bits");
            code.push(
                static_call(
                    dest.as_str(),
                    NUMBERS_CLASS,
                    "f16ToBits",
                    &static_signature(&make_params1("value", &Type::F16), &Type::U16),
                    &make_args1(source),
                ),
            );
            Ok(make_bits(&operand_var(dest.as_str(), &Type::U16), &Type::U16, rust_size))
        },
        TypeKind::Float(FloatKind::F32) => {
            let dest = code.fresh("union_f32_bits");
            code.push(
                static_call(
                    dest.as_str(),
                    "java/lang/Float",
                    "floatToRawIntBits",
                    &static_signature(&make_params1("value", &Type::F32), &Type::I32),
                    &make_args1(source),
                ),
            );
            Ok(make_bits(&operand_var(dest.as_str(), &Type::I32), &Type::I32, rust_size))
        },
        TypeKind::Float(FloatKind::F64) => {
            let dest = code.fresh("union_f64_bits");
            code.push(
                static_call(
                    dest.as_str(),
                    "java/lang/Double",
                    "doubleToRawLongBits",
                    &static_signature(&make_params1("value", &Type::F64), &Type::I64),
                    &make_args1(source),
                ),
            );
            Ok(make_bits(&operand_var(dest.as_str(), &Type::I64), &Type::I64, rust_size))
        },
        TypeKind::Float(_) => {
            Err(cat2("unsupported float width in union field: ", ty.text.as_str()))
        },
        TypeKind::Int(IntKind::I128) | TypeKind::Uint(UintKind::U128) => {
            Err(cat2("unsupported wide integer union field: ", ty.text.as_str()))
        },
        TypeKind::Bool | TypeKind::Char | TypeKind::Int(_) | TypeKind::Uint(_) => {
            let bits_ty = scalar_bits_type(rust_size, &RustType::jvm_type(ty));
            if same_type(&Operand::get_type(source), &bits_ty) {
                Ok(make_bits(source, &bits_ty, rust_size))
            } else {
                let dest = code.fresh("union_bits");
                code.push(cast(source, &bits_ty, dest.as_str()));
                Ok(make_bits(&operand_var(dest.as_str(), &bits_ty), &bits_ty, rust_size))
            }
        },
        _ => {
            Err(cat2("unsupported scalar union field: ", ty.text.as_str()))
        },
    }
}

/// Stores one byte of a 128-bit integer.
#[verifier::opaque]
pub open spec fn stored_wide_byte(
    source: OperandModel,
    wide_ty: TypeModel,
    index: usize,
    storage: UnionStorageModel,
    base_offset: usize,
    code: CodeModel,
) -> CodeModel {
    let (code, byte_dest) = fresh(code, "union_big_integer_byte"@);
    let code = emit(
        code,
        calls_static(
            byte_dest,
            POINTER_CLASS@,
            "integer128Byte"@,
            static_method(params2("value"@, wide_ty, "byte_index"@, Type::I32), Type::I8),
            args2(source, i32_value(small_number(index))),
        ),
    );
    let (code, position) = byte_position(storage, offset_sum(base_offset, index), code);
    let code = emit(
        code,
        stores_element(storage.bytes_var, position, variable(byte_dest, Type::I8)),
    );
    code
}

/// Stores one byte of a 128-bit integer.
pub fn emit_wide_byte(
    source: &Operand,
    wide_ty: &Type,
    index: usize,
    storage: &UnionStorage,
    base_offset: usize,
    code: &mut Code,
)
    ensures
        final(code).deep_view() == stored_wide_byte(
            source.deep_view(),
            wide_ty.deep_view(),
            index,
            storage.deep_view(),
            base_offset,
            old(code).deep_view(),
        ),
{
    proof {
        reveal(stored_wide_byte);
    }
    let byte_dest = code.fresh("union_big_integer_byte");
    code.push(
        static_call(
            byte_dest.as_str(),
            POINTER_CLASS,
            "integer128Byte",
            &static_signature(&make_params2("value", wide_ty, "byte_index", &Type::I32), &Type::I8),
            &make_args2(source, &i32_operand(small_number_of(index))),
        ),
    );
    let position = UnionStorage::byte_index(storage, add_offsets(base_offset, index), code);
    code.push(
        array_store(
            storage.bytes_var.as_str(),
            &position,
            &operand_var(byte_dest.as_str(), &Type::I8),
        ),
    );
}

/// Stores the first bytes of a 128-bit integer, least significant byte first.
#[verifier::opaque]
pub open spec fn stored_wide(
    source: OperandModel,
    wide_ty: TypeModel,
    size: nat,
    storage: UnionStorageModel,
    base_offset: usize,
    code: CodeModel,
) -> CodeModel
    decreases size,
{
    if size == 0 {
        code
    } else {
        let code = stored_wide(source, wide_ty, (size - 1) as nat, storage, base_offset, code);
        stored_wide_byte(source, wide_ty, (size - 1) as usize, storage, base_offset, code)
    }
}

/// Stores the bytes of a 128-bit integer, least significant byte first.
pub fn emit_wide_to_union_bytes(
    source: &Operand,
    wide_ty: &Type,
    size: usize,
    storage: &UnionStorage,
    base_offset: usize,
    code: &mut Code,
)
    ensures
        final(code).deep_view() == stored_wide(
            source.deep_view(),
            wide_ty.deep_view(),
            size as nat,
            storage.deep_view(),
            base_offset,
            old(code).deep_view(),
        ),
{
    proof {
        reveal(stored_wide);
    }
    let ghost start = code.deep_view();
    for index in 0..size
        invariant
            code.deep_view() == stored_wide(
                source.deep_view(),
                wide_ty.deep_view(),
                index as nat,
                storage.deep_view(),
                base_offset,
                start,
            ),
    {
        proof {
            reveal(stored_wide);
        }
        emit_wide_byte(source, wide_ty, index, storage, base_offset, code);
    }
}

/// Whether a type is one of the 128-bit integers.
pub open spec fn is_wide(ty: RustType) -> bool {
    ty.kind == TypeKind::Int(IntKind::I128) || ty.kind == TypeKind::Uint(UintKind::U128)
}

/// Whether a type is one of the 128-bit integers.
pub fn is_wide_integer(ty: &RustType) -> (r: bool)
    ensures
        r == is_wide(*ty),
{
    matches!(&ty.kind, TypeKind::Int(IntKind::I128) | TypeKind::Uint(UintKind::U128))
}

/// Whether a type is the signed 128-bit integer.
pub open spec fn is_signed_wide(ty: RustType) -> bool {
    ty.kind == TypeKind::Int(IntKind::I128)
}

/// Whether a type is the signed 128-bit integer.
pub fn is_signed_wide_integer(ty: &RustType) -> (r: bool)
    ensures
        r == is_signed_wide(*ty),
{
    matches!(&ty.kind, TypeKind::Int(IntKind::I128))
}

/// Stores a scalar.
#[verifier::opaque]
pub open spec fn stored_scalar(
    ty: RustType,
    source: OperandModel,
    storage: UnionStorageModel,
    base_offset: usize,
    code: CodeModel,
) -> (CodeModel, Result<(), Text>) {
    if is_wide(ty) {
        match size_of(ty) {
            Err(error) => (code, Err(error)),
            Ok(rust_size) => {
                let code = stored_wide(
                    source,
                    lowered(ty),
                    rust_size as nat,
                    storage,
                    base_offset,
                    code,
                );
                (code, Ok(()))
            },
        }
    } else {
        let (code, outcome) = scalar_bits(ty, source, code);
        match outcome {
            Err(error) => (code, Err(error)),
            Ok(bits) => {
                let code = stored_bits(bits.0, bits.1, bits.2 as nat, storage, base_offset, code);
                (code, Ok(()))
            },
        }
    }
}

/// Stores a scalar.
pub fn emit_scalar_to_union_bytes(
    ty: &RustType,
    source: &Operand,
    storage: &UnionStorage,
    base_offset: usize,
    code: &mut Code,
) -> (r: Result<(), String>)
    ensures
        (final(code).deep_view(), unit_outcome(r)) == stored_scalar(
            *ty,
            source.deep_view(),
            storage.deep_view(),
            base_offset,
            old(code).deep_view(),
        ),
{
    proof {
        reveal(stored_scalar);
    }
    if is_wide_integer(ty) {
        let rust_size = match layout_size_bytes(ty) {
            Ok(value) => value,
            Err(error) => return Err(error),
        };
        emit_wide_to_union_bytes(
            source,
            &RustType::jvm_type(ty),
            rust_size,
            storage,
            base_offset,
            code,
        );
        Ok(())
    } else {
        let bits = match scalar_bit_operand_for_union(ty, source, code) {
            Ok(value) => value,
            Err(error) => return Err(error),
        };
        emit_bits_to_union_bytes(&bits.0, &bits.1, bits.2, storage, base_offset, code);
        Ok(())
    }
}

/// The type in which the bytes of a scalar are collected.
pub open spec fn collected_type(ty: RustType, rust_size: usize) -> Result<TypeModel, Text> {
    match ty.kind {
        TypeKind::Float(FloatKind::F16) => Ok(Type::U16),
        TypeKind::Float(FloatKind::F32) => Ok(Type::I32),
        TypeKind::Float(FloatKind::F64) => Ok(Type::I64),
        TypeKind::Float(_) => Err("unsupported float width in union field: "@ + ty.text@),
        TypeKind::Bool => Ok(bits_type(rust_size, lowered(ty))),
        TypeKind::Char => Ok(bits_type(rust_size, lowered(ty))),
        TypeKind::Int(_) => Ok(bits_type(rust_size, lowered(ty))),
        TypeKind::Uint(_) => Ok(bits_type(rust_size, lowered(ty))),
        _ => Err("unsupported scalar union field: "@ + ty.text@),
    }
}

fn collected_bits_type(ty: &RustType, rust_size: usize) -> (r: Result<Type, String>)
    ensures
        outcome_model(r) == collected_type(*ty, rust_size),
{
    match &ty.kind {
        TypeKind::Float(FloatKind::F16) => Ok(Type::U16),
        TypeKind::Float(FloatKind::F32) => Ok(Type::I32),
        TypeKind::Float(FloatKind::F64) => Ok(Type::I64),
        TypeKind::Float(_) => Err(
            cat2("unsupported float width in union field: ", ty.text.as_str()),
        ),
        TypeKind::Bool | TypeKind::Char | TypeKind::Int(_) | TypeKind::Uint(_) => Ok(
            scalar_bits_type(rust_size, &ty.jvm_type()),
        ),
        _ => Err(cat2("unsupported scalar union field: ", ty.text.as_str())),
    }
}

/// The scalar that bits stand for.
#[verifier::opaque]
pub open spec fn scalar_of_bits(
    ty: RustType,
    bits: OperandModel,
    bits_ty: TypeModel,
    code: CodeModel,
) -> (CodeModel, OperandModel) {
    match ty.kind {
        TypeKind::Float(FloatKind::F16) => {
            let (code, dest) = fresh(code, "union_f16_value"@);
            let code = emit(
                code,
                calls_static(
                    dest,
                    NUMBERS_CLASS@,
                    "f16FromBits"@,
                    static_method(params1("bits"@, Type::U16), Type::F16),
                    args1(bits),
                ),
            );
            (code, variable(dest, Type::F16))
        },
        TypeKind::Float(FloatKind::F32) => {
            let (code, dest) = fresh(code, "union_f32_value"@);
            let code = emit(
                code,
                calls_static(
                    dest,
                    "java/lang/Float"@,
                    "intBitsToFloat"@,
                    static_method(params1("bits"@, Type::I32), Type::F32),
                    args1(bits),
                ),
            );
            (code, variable(dest, Type::F32))
        },
        TypeKind::Float(FloatKind::F64) => {
            let (code, dest) = fresh(code, "union_f64_value"@);
            let code = emit(
                code,
                calls_static(
                    dest,
                    "java/lang/Double"@,
                    "longBitsToDouble"@,
                    static_method(params1("bits"@, Type::I64), Type::F64),
                    args1(bits),
                ),
            );
            (code, variable(dest, Type::F64))
        },
        _ => {
            if (lowered(ty) == bits_ty) {
                (code, bits)
            } else {
                let (code, dest) = fresh(code, "union_scalar_value"@);
                let code = emit(code, converts(bits, lowered(ty), dest));
                (code, variable(dest, lowered(ty)))
            }
        },
    }
}

/// Turns bits into the scalar that they stand for.
pub fn emit_scalar_of_bits(
    ty: &RustType,
    bits: &Operand,
    bits_ty: &Type,
    code: &mut Code,
) -> (r: Operand)
    ensures
        (final(code).deep_view(), r.deep_view()) == scalar_of_bits(
            *ty,
            bits.deep_view(),
            bits_ty.deep_view(),
            old(code).deep_view(),
        ),
{
    proof {
        reveal(scalar_of_bits);
    }
    match &ty.kind {
        TypeKind::Float(FloatKind::F16) => {
            let dest = code.fresh("union_f16_value");
            code.push(
                static_call(
                    dest.as_str(),
                    NUMBERS_CLASS,
                    "f16FromBits",
                    &static_signature(&make_params1("bits", &Type::U16), &Type::F16),
                    &make_args1(bits),
                ),
            );
            operand_var(dest.as_str(), &Type::F16)
        },
        TypeKind::Float(FloatKind::F32) => {
            let dest = code.fresh("union_f32_value");
            code.push(
                static_call(
                    dest.as_str(),
                    "java/lang/Float",
                    "intBitsToFloat",
                    &static_signature(&make_params1("bits", &Type::I32), &Type::F32),
                    &make_args1(bits),
                ),
            );
            operand_var(dest.as_str(), &Type::F32)
        },
        TypeKind::Float(FloatKind::F64) => {
            let dest = code.fresh("union_f64_value");
            code.push(
                static_call(
                    dest.as_str(),
                    "java/lang/Double",
                    "longBitsToDouble",
                    &static_signature(&make_params1("bits", &Type::I64), &Type::F64),
                    &make_args1(bits),
                ),
            );
            operand_var(dest.as_str(), &Type::F64)
        },
        _ => {
            if same_type(&RustType::jvm_type(ty), bits_ty) {
                bits.dup()
            } else {
                let dest = code.fresh("union_scalar_value");
                code.push(cast(bits, &RustType::jvm_type(ty), dest.as_str()));
                operand_var(dest.as_str(), &RustType::jvm_type(ty))
            }
        },
    }
}

/// The 128-bit integer in storage.
#[verifier::opaque]
pub open spec fn loaded_wide(
    ty: RustType,
    rust_size: usize,
    storage: UnionStorageModel,
    base_offset: usize,
    code: CodeModel,
) -> (CodeModel, OperandModel) {
    let (code, offset) = byte_position(storage, base_offset, code);
    let (code, dest) = fresh(code, "union_big_integer_value"@);
    let method = wide_method(ty);
    let code = emit(
        code,
        calls_static(
            dest,
            POINTER_CLASS@,
            method,
            wide_reader(lowered(ty)),
            args4(
                variable(storage.bytes_var, byte_array()),
                offset,
                i32_value(small_number(rust_size)),
                bool_value(is_signed_wide(ty)),
            ),
        ),
    );
    (code, variable(dest, lowered(ty)))
}

/// Loads a 128-bit integer.
pub fn emit_wide_from_union_bytes(
    ty: &RustType,
    rust_size: usize,
    storage: &UnionStorage,
    base_offset: usize,
    code: &mut Code,
) -> (r: Operand)
    ensures
        (final(code).deep_view(), r.deep_view()) == loaded_wide(
            *ty,
            rust_size,
            storage.deep_view(),
            base_offset,
            old(code).deep_view(),
        ),
{
    proof {
        reveal(loaded_wide);
    }
    let offset = UnionStorage::byte_index(storage, base_offset, code);
    let dest = code.fresh("union_big_integer_value");
    let method = wide_method_name(ty);
    code.push(
        static_call(
            dest.as_str(),
            POINTER_CLASS,
            method.as_str(),
            &wide_reader_signature(&RustType::jvm_type(ty)),
            &make_args4(
                &operand_var(storage.bytes_var.as_str(), &byte_array_type()),
                &offset,
                &i32_operand(small_number_of(rust_size)),
                &bool_operand(is_signed_wide_integer(ty)),
            ),
        ),
    );
    operand_var(dest.as_str(), &RustType::jvm_type(ty))
}

/// The runtime method that reads a 128-bit integer.
pub open spec fn wide_method(ty: RustType) -> Text {
    if is_signed_wide(ty) {
        "i128FromBytes"@
    } else {
        "u128FromBytes"@
    }
}

fn wide_method_name(ty: &RustType) -> (r: String)
    ensures
        r@ == wide_method(*ty),
{
    if is_signed_wide_integer(ty) {
        "i128FromBytes".to_string()
    } else {
        "u128FromBytes".to_string()
    }
}

/// The scalar in storage.
#[verifier::opaque]
pub open spec fn loaded_scalar(
    ty: RustType,
    storage: UnionStorageModel,
    base_offset: usize,
    code: CodeModel,
) -> (CodeModel, Result<OperandModel, Text>) {
    match size_of(ty) {
        Err(error) => (code, Err(error)),
        Ok(rust_size) => {
            if is_wide(ty) {
                let (code, value) = loaded_wide(ty, rust_size, storage, base_offset, code);
                (code, Ok(value))
            } else {
                match collected_type(ty, rust_size) {
                    Err(error) => (code, Err(error)),
                    Ok(bits_ty) => {
                        let (code, bits) = loaded_bits(
                            bits_ty,
                            rust_size as nat,
                            storage,
                            base_offset,
                            code,
                        );
                        let (code, value) = scalar_of_bits(ty, bits, bits_ty, code);
                        (code, Ok(value))
                    },
                }
            }
        },
    }
}

/// Loads a scalar.
pub fn emit_scalar_from_union_bytes(
    ty: &RustType,
    storage: &UnionStorage,
    base_offset: usize,
    code: &mut Code,
) -> (r: Result<Operand, String>)
    ensures
        (
            final(code).deep_view(),
            outcome_model(r),
        ) == loaded_scalar(*ty, storage.deep_view(), base_offset, old(code).deep_view()),
{
    proof {
        reveal(loaded_scalar);
    }
    let rust_size = match layout_size_bytes(ty) {
        Ok(value) => value,
        Err(error) => return Err(error),
    };
    if is_wide_integer(ty) {
        let value = emit_wide_from_union_bytes(ty, rust_size, storage, base_offset, code);
        Ok(value)
    } else {
        let bits_ty = match collected_bits_type(ty, rust_size) {
            Ok(value) => value,
            Err(error) => return Err(error),
        };
        let bits = emit_bits_from_union_bytes(&bits_ty, rust_size, storage, base_offset, code);
        let value = emit_scalar_of_bits(ty, &bits, &bits_ty, code);
        Ok(value)
    }
}

} // verus!
