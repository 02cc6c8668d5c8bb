//! Code that writes Rust values into byte storage, byte for byte as Rust lays them out.
//!
//! The classes that the code names are defined on the way, with the methods and codecs that it
//! calls.
use crate::code::{
    Code, CodeModel, Definitions, DefinitionsModel, args0, args1, args2, args3, args5, array_new,
    byte_array, byte_array_type, calls_static, calls_virtual, emit, field_read, fresh,
    i32_operand, i32_value, instance_method, instance_signature, java_string, make_args0,
    make_args1, make_args2, make_args3, make_args5, make_params0, make_params1, make_params2,
    make_params3, make_params5, makes_array, object_array, object_array_type, object_class,
    object_type, operand_var, params0, params1, params2, params3, params5, pointer_to,
    pointer_type, reads_field, runs_static, runs_virtual, static_call, static_method, static_run,
    static_signature, string_class, text_operand, text_value, u64_operand, u64_value,
    unit_outcome, variable, virtual_call, virtual_run,
};
use crate::codec::{
    ENUM_WRITE_UNION_STORAGE_METHOD, UNION_BYTES_FIELD, UNION_OBJECTS_FIELD, class_name_or,
    class_or, codec_operand, codec_value, concrete_length, concrete_length_of, encoded_address,
    encoded_address_signature, enum_union_write_signature, enum_writer, first_variant_of,
    get_pointee, is_known_struct, is_laid_out_struct, is_pointer, is_pointer_type, is_slice,
    is_slice_type, jvm_size, jvm_size_or, plain_type_name, pointee_of, size_as_u64, type_text,
};
use crate::coroutine_codec::{coroutine_codec, ensure_coroutine_codec};
use crate::descriptor::{POINTER_CLASS, is_reference};
use crate::enum_codec::{ensure_enum_union_codec, enum_codec};
use crate::layout::{
    Slot, SlotModel, SlotNames, adt_valid, all_valid, get_slot, plan_slots, slot_at,
    slots_of_fields, valid,
};
use crate::lowering::{
    closure_parts_defined, define_closure_parts, define_fields, define_struct_parts, define_type,
    define_whole, defined_fields, struct_parts_defined, type_defined, whole_defined,
};
use crate::oomir::{Operand, OperandModel, Text, Type, operand_type};
use crate::pointer_codec::{
    builtin_codec, fat_codec, fat_pointer_codec_operand, pointer_builtin_codec_operand,
    pointer_view_codec_operand, view_codec,
};
use crate::rust_type::{
    Adt, Field, FloatKind, RustType, Shape, TypeKind, at_least_one, is_direct_union_scalar,
    is_dynamic, is_scalar, is_trait_object, layout_size_bytes, lowered, one_or_more, size_of,
};
use crate::scalar::{emit_scalar_to_union_bytes, stored_scalar};
use crate::text::{cat2, cat3, cat5};
use crate::union_storage::{
    F128_CLASS, UnionStorage, UnionStorageModel, add_offsets, byte_position, copied_storage,
    emit_bits_to_union_bytes, emit_managed_object_to_union_bytes, emit_object_to_union_storage,
    emit_union_storage_copy, offset_sum, small_number, small_number_of, storage_at_start,
    stored_bits, stored_managed_object, stored_object,
};
use vstd::prelude::*;
use vstd::string::*;

verus! {

/// Stores one part of an aggregate.
pub open spec fn stored_field(
    field: Field,
    slot: SlotModel,
    class_name: Text,
    source: OperandModel,
    storage: UnionStorageModel,
    base_offset: usize,
    code: CodeModel,
    defs: DefinitionsModel,
) -> (CodeModel, DefinitionsModel, Result<(), Text>)
    decreases field, 0nat, 0nat,
{
    let (code, field_dest) = fresh(code, "union_aggregate_field"@);
    let code = emit(code, reads_field(field_dest, source, slot.name, slot.ty, class_name));
    stored(
        field.ty,
        variable(field_dest, slot.ty),
        storage,
        offset_sum(base_offset, field.offset),
        code,
        defs,
    )
}

/// Stores one part of an aggregate.
pub fn emit_field_to_union_bytes(
    field: &Field,
    slot: &Slot,
    class_name: &str,
    source: &Operand,
    storage: &UnionStorage,
    base_offset: usize,
    code: &mut Code,
    defs: &mut Definitions,
) -> (r: Result<(), String>)
    requires
        valid(field.ty),
    ensures
        (final(code).deep_view(), final(defs).deep_view(), unit_outcome(r)) == stored_field(
            *field,
            slot.deep_view(),
            class_name@,
            source.deep_view(),
            storage.deep_view(),
            base_offset,
            old(code).deep_view(),
            old(defs).deep_view(),
        ),
    decreases field, 0nat,
{
    let field_dest = code.fresh("union_aggregate_field");
    code.push(field_read(field_dest.as_str(), source, slot.name.as_str(), &slot.ty, class_name));
    emit_ty_to_union_bytes(
        &field.ty,
        &operand_var(field_dest.as_str(), &slot.ty),
        storage,
        add_offsets(base_offset, field.offset),
        code,
        defs,
    )
}

/// Stores the parts of an aggregate that have fields, from one on; trait objects are left out.
pub open spec fn stored_fields(
    fields: Seq<Field>,
    slots: Seq<Option<SlotModel>>,
    class_name: Text,
    source: OperandModel,
    storage: UnionStorageModel,
    base_offset: usize,
    from: nat,
    code: CodeModel,
    defs: DefinitionsModel,
) -> (CodeModel, DefinitionsModel, Result<(), Text>)
    decreases fields, 0nat, fields.len() - from,
{
    if from >= fields.len() {
        (code, defs, Ok(()))
    } else {
        let item = fields[from as int];
        match slot_at(slots, (from as usize)) {
            None => {
                stored_fields(
                    fields,
                    slots,
                    class_name,
                    source,
                    storage,
                    base_offset,
                    from + 1,
                    code,
                    defs,
                )
            },
            Some(slot) => {
                if is_dynamic(item.ty) {
                    stored_fields(
                        fields,
                        slots,
                        class_name,
                        source,
                        storage,
                        base_offset,
                        from + 1,
                        code,
                        defs,
                    )
                } else {
                    let (code, defs, outcome) = stored_field(
                        item,
                        slot,
                        class_name,
                        source,
                        storage,
                        base_offset,
                        code,
                        defs,
                    );
                    match outcome {
                        Err(error) => (code, defs, Err(error)),
                        Ok(_) => {
                            stored_fields(
                                fields,
                                slots,
                                class_name,
                                source,
                                storage,
                                base_offset,
                                from + 1,
                                code,
                                defs,
                            )
                        },
                    }
                }
            },
        }
    }
}

/// Stores the parts of an aggregate that have fields.
pub fn emit_aggregate_to_union_bytes(
    fields: &Vec<Field>,
    slots: &Vec<Option<Slot>>,
    class_name: &str,
    source: &Operand,
    storage: &UnionStorage,
    base_offset: usize,
    code: &mut Code,
    defs: &mut Definitions,
) -> (r: Result<(), String>)
    requires
        all_valid(fields@),
    ensures
        (final(code).deep_view(), final(defs).deep_view(), unit_outcome(r)) == stored_fields(
            fields@,
            slots.deep_view(),
            class_name@,
            source.deep_view(),
            storage.deep_view(),
            base_offset,
            0,
            old(code).deep_view(),
            old(defs).deep_view(),
        ),
    decreases fields@, 0nat,
{
    let ghost start = stored_fields(
            fields@,
            slots.deep_view(),
            class_name@,
            source.deep_view(),
            storage.deep_view(),
            base_offset,
            0,
            code.deep_view(),
            defs.deep_view(),
        );
    for i in 0..fields.len()
        invariant
            all_valid(fields@),
            stored_fields(
                fields@,
                slots.deep_view(),
                class_name@,
                source.deep_view(),
                storage.deep_view(),
                base_offset,
                i as nat,
                code.deep_view(),
                defs.deep_view(),
            ) == start,
            start == stored_fields(
                fields@,
                slots.deep_view(),
                class_name@,
                source.deep_view(),
                storage.deep_view(),
                base_offset,
                0,
                old(code).deep_view(),
                old(defs).deep_view(),
            ),
    {
        let item = &fields[i];
        match &get_slot(slots, i) {
            None => {

            },
            Some(slot) => {
                if is_trait_object(&item.ty) {

                } else {
                    let _done = match emit_field_to_union_bytes(
                        item,
                        slot,
                        class_name,
                        source,
                        storage,
                        base_offset,
                        code,
                        defs,
                    ) {
                        Ok(value) => value,
                        Err(error) => return Err(error),
                    };

                }
            },
        }
    }
    Ok(())
}

/// Stores a value: nothing for types without bytes, numbers as their bytes, pointers with metadata
/// through the runtime, and everything else by its kind.
pub open spec fn stored(
    ty: RustType,
    source: OperandModel,
    storage: UnionStorageModel,
    base_offset: usize,
    code: CodeModel,
    defs: DefinitionsModel,
) -> (CodeModel, DefinitionsModel, Result<(), Text>)
    decreases ty, 4nat, 0nat,
{
    match size_of(ty) {
        Err(error) => (code, defs, Err(error)),
        Ok(size) => {
            if size == 0 {
                (code, defs, Ok(()))
            } else if is_scalar(ty) {
                let (code, outcome) = stored_scalar(ty, source, storage, base_offset, code);
                match outcome {
                    Err(error) => (code, defs, Err(error)),
                    Ok(_) => {
                        (code, defs, Ok(()))
                    },
                }
            } else {
                let (defs, fat) = fat_codec(ty, defs);
                match fat {
                    Some(codec) => {
                        let (code, offset) = byte_position(storage, base_offset, code);
                        match jvm_size(size, "fat-pointer layout exceeds JVM address space"@) {
                            Err(error) => (code, defs, Err(error)),
                            Ok(encoded) => {
                                let code = emit(
                                    code,
                                    runs_static(
                                        POINTER_CLASS@,
                                        "encodeFatPointerMemory"@,
                                        static_method(
                                            params5(
                                                "value"@,
                                                object_class(),
                                                "bytes"@,
                                                byte_array(),
                                                "offset"@,
                                                Type::I32,
                                                "size"@,
                                                Type::I32,
                                                "codec"@,
                                                string_class(),
                                            ),
                                            Type::Void,
                                        ),
                                        args5(
                                            source,
                                            variable(storage.bytes_var, byte_array()),
                                            offset,
                                            i32_value(encoded),
                                            text_value(codec),
                                        ),
                                    ),
                                );
                                (code, defs, Ok(()))
                            },
                        }
                    },
                    None => {
                        stored_thin(ty, size, source, storage, base_offset, code, defs)
                    },
                }
            }
        },
    }
}

/// Stores a value in storage.
pub fn emit_ty_to_union_bytes(
    ty: &RustType,
    source: &Operand,
    storage: &UnionStorage,
    base_offset: usize,
    code: &mut Code,
    defs: &mut Definitions,
) -> (r: Result<(), String>)
    requires
        valid(*ty),
    ensures
        (final(code).deep_view(), final(defs).deep_view(), unit_outcome(r)) == stored(
            *ty,
            source.deep_view(),
            storage.deep_view(),
            base_offset,
            old(code).deep_view(),
            old(defs).deep_view(),
        ),
    decreases ty, 4nat,
{
    let size = match layout_size_bytes(ty) {
        Ok(value) => value,
        Err(error) => return Err(error),
    };
    if size == 0 {
        Ok(())
    } else if is_direct_union_scalar(ty) {
        let _done = match emit_scalar_to_union_bytes(ty, source, storage, base_offset, code) {
            Ok(value) => value,
            Err(error) => return Err(error),
        };
        Ok(())
    } else {
        let fat = fat_pointer_codec_operand(ty, defs);
        match &fat {
            Some(codec) => {
                let offset = UnionStorage::byte_index(storage, base_offset, code);
                let encoded = match jvm_size_or(
                    size,
                    "fat-pointer layout exceeds JVM address space",
                ) {
                    Ok(value) => value,
                    Err(error) => return Err(error),
                };
                code.push(
                    static_run(
                        POINTER_CLASS,
                        "encodeFatPointerMemory",
                        &static_signature(
                            &make_params5(
                                "value",
                                &object_type(),
                                "bytes",
                                &byte_array_type(),
                                "offset",
                                &Type::I32,
                                "size",
                                &Type::I32,
                                "codec",
                                &java_string(),
                            ),
                            &Type::Void,
                        ),
                        &make_args5(
                            source,
                            &operand_var(storage.bytes_var.as_str(), &byte_array_type()),
                            &offset,
                            &i32_operand(encoded),
                            &text_operand(codec.as_str()),
                        ),
                    ),
                );
                Ok(())
            },
            None => {
                emit_thin_to_union_bytes(ty, size, source, storage, base_offset, code, defs)
            },
        }
    }
}

/// Stores a value that is neither a number nor a pointer with metadata.
pub open spec fn stored_thin(
    ty: RustType,
    size: usize,
    source: OperandModel,
    storage: UnionStorageModel,
    base_offset: usize,
    code: CodeModel,
    defs: DefinitionsModel,
) -> (CodeModel, DefinitionsModel, Result<(), Text>)
    decreases ty, 3nat, 0nat,
{
    match ty.kind {
        TypeKind::Pat(inner) => {
            stored((*inner), source, storage, base_offset, code, defs)
        },
        TypeKind::Ref { pointee, .. } => {
            match (*pointee).kind {
                TypeKind::Array { element, length } => {
                    if is_slice(operand_type(source)) {
                        match size_of((*element)) {
                            Err(error) => (code, defs, Err(error)),
                            Ok(element_size) => {
                                let defs = type_defined((*element), defs);
                                let pointer_ty = pointer_to(lowered((*element)));
                                let (code, pointer_dest) = fresh(
                                    code,
                                    "union_array_reference_pointer"@,
                                );
                                let (defs, element_codec) = view_codec((*element), defs);
                                let code = emit(
                                    code,
                                    calls_static(
                                        pointer_dest,
                                        POINTER_CLASS@,
                                        "fromSlice"@,
                                        static_method(
                                            params3(
                                                "slice"@,
                                                object_class(),
                                                "element_size"@,
                                                Type::U64,
                                                "codec"@,
                                                string_class(),
                                            ),
                                            pointer_ty,
                                        ),
                                        args3(
                                            source,
                                            u64_value(((element_size as u64))),
                                            codec_value(element_codec),
                                        ),
                                    ),
                                );
                                let (code, address_dest) = fresh(
                                    code,
                                    "union_array_reference_address"@,
                                );
                                match concrete_length(length, (*pointee)) {
                                    Err(error) => (code, defs, Err(error)),
                                    Ok(_count) => {
                                        let (defs, pointer_codec) = builtin_codec(ty, defs);
                                        let (
                                            code,
                                            storage_offset,
                                        ) = byte_position(storage, base_offset, code);
                                        match jvm_size(
                                            size,
                                            "pointer layout exceeds JVM address space"@,
                                        ) {
                                            Err(error) => (code, defs, Err(error)),
                                            Ok(encoded) => {
                                                let code = emit(
                                                    code,
                                                    calls_static(
                                                        address_dest,
                                                        POINTER_CLASS@,
                                                        "encodedAddress"@,
                                                        encoded_address(pointer_ty),
                                                        args5(
                                                            variable(pointer_dest, pointer_ty),
                                                            variable(
                                                                storage.bytes_var,
                                                                byte_array(),
                                                            ),
                                                            storage_offset,
                                                            i32_value(encoded),
                                                            codec_value(pointer_codec),
                                                        ),
                                                    ),
                                                );
                                                let code = stored_bits(
                                                    variable(address_dest, Type::U64),
                                                    Type::U64,
                                                    size as nat,
                                                    storage,
                                                    base_offset,
                                                    code,
                                                );
                                                (code, defs, Ok(()))
                                            },
                                        }
                                    },
                                }
                            },
                        }
                    } else if is_pointer(lowered(ty)) {
                        stored_pointer(ty, source, storage, base_offset, code, defs)
                    } else {
                        stored_other(ty, size, source, storage, base_offset, code, defs)
                    }
                },
                _ => {
                    if is_pointer(lowered(ty)) {
                        stored_pointer(ty, source, storage, base_offset, code, defs)
                    } else {
                        stored_other(ty, size, source, storage, base_offset, code, defs)
                    }
                },
            }
        },
        TypeKind::RawPtr { pointee, .. } => {
            if is_pointer(lowered(ty)) {
                stored_pointer(ty, source, storage, base_offset, code, defs)
            } else {
                stored_other(ty, size, source, storage, base_offset, code, defs)
            }
        },
        TypeKind::Float(FloatKind::F128) => {
            let (code, low) = f128_half(source, "lowBits"@, code);
            let code = stored_bits(low, Type::I64, 8 as nat, storage, base_offset, code);
            let (code, high) = f128_half(source, "highBits"@, code);
            let code = stored_bits(
                high,
                Type::I64,
                8 as nat,
                storage,
                offset_sum(base_offset, 8),
                code,
            );
            (code, defs, Ok(()))
        },
        TypeKind::Tuple { class_name, elements } => {
            let defs = defined_fields(elements@, 0, defs);
            let slots = slots_of_fields(SlotNames::Elements, class_name@, elements@, defs);
            stored_fields(
                elements@,
                slots,
                class_name@,
                source,
                storage,
                base_offset,
                0,
                code,
                defs,
            )
        },
        TypeKind::Closure { class_name, captures, .. } => {
            let defs = closure_parts_defined(class_name@, captures@, defs);
            let slots = slots_of_fields(SlotNames::Captures, class_name@, captures@, defs);
            stored_fields(
                captures@,
                slots,
                class_name@,
                source,
                storage,
                base_offset,
                0,
                code,
                defs,
            )
        },
        TypeKind::Array { element, .. } => {
            match size_of((*element)) {
                Err(error) => (code, defs, Err(error)),
                Ok(element_size) => {
                    let (code, offset) = byte_position(storage, base_offset, code);
                    let (defs, codec) = view_codec((*element), defs);
                    let code = emit(
                        code,
                        runs_static(
                            POINTER_CLASS@,
                            "encodeArrayMemory"@,
                            static_method(
                                params5(
                                    "array"@,
                                    object_class(),
                                    "bytes"@,
                                    byte_array(),
                                    "offset"@,
                                    Type::I32,
                                    "element_size"@,
                                    Type::I32,
                                    "codec"@,
                                    string_class(),
                                ),
                                Type::Void,
                            ),
                            args5(
                                source,
                                variable(storage.bytes_var, byte_array()),
                                offset,
                                i32_value(small_number(element_size)),
                                codec_value(codec),
                            ),
                        ),
                    );
                    (code, defs, Ok(()))
                },
            }
        },
        TypeKind::Coroutine(coroutine) => {
            let (defs, outcome) = coroutine_codec(ty, coroutine, defs);
            match outcome {
                Err(error) => (code, defs, Err(error)),
                Ok(codec) => {
                    let (code, encoded) = fresh(code, "nested_coroutine_bytes"@);
                    let (code, nested_objects) = fresh(code, "nested_coroutine_objects"@);
                    let code = emit(
                        code,
                        calls_static(
                            encoded,
                            codec,
                            "encode"@,
                            static_method(params1("value"@, lowered(ty)), byte_array()),
                            args1(source),
                        ),
                    );
                    let code = emit(
                        code,
                        makes_array(
                            nested_objects,
                            object_class(),
                            i32_value(small_number(at_least_one(size))),
                        ),
                    );
                    let code = copied_storage(
                        storage_at_start(encoded, nested_objects),
                        0,
                        storage,
                        base_offset,
                        size,
                        code,
                    );
                    (code, defs, Ok(()))
                },
            }
        },
        TypeKind::Adt(adt) => {
            let defs = whole_defined(ty, adt, defs);
            if is_pointer(lowered(ty)) {
                stored_pointer(ty, source, storage, base_offset, code, defs)
            } else {
                stored_adt(ty, adt, size, source, storage, base_offset, code, defs)
            }
        },
        _ => {
            stored_other(ty, size, source, storage, base_offset, code, defs)
        },
    }
}

/// Stores a value that is neither a number nor a pointer with metadata.
#[verifier::rlimit(80)]
pub fn emit_thin_to_union_bytes(
    ty: &RustType,
    size: usize,
    source: &Operand,
    storage: &UnionStorage,
    base_offset: usize,
    code: &mut Code,
    defs: &mut Definitions,
) -> (r: Result<(), String>)
    requires
        valid(*ty), ty.size == Ok::<usize, String>(size),
    ensures
        (final(code).deep_view(), final(defs).deep_view(), unit_outcome(r)) == stored_thin(
            *ty,
            size,
            source.deep_view(),
            storage.deep_view(),
            base_offset,
            old(code).deep_view(),
            old(defs).deep_view(),
        ),
    decreases ty, 3nat,
{
    proof {
        reveal_with_fuel(valid, 3);
    }
    match &ty.kind {
        TypeKind::Pat(inner) => {
            emit_ty_to_union_bytes(inner, source, storage, base_offset, code, defs)
        },
        TypeKind::Ref { pointee, .. } => {
            match &pointee.kind {
                TypeKind::Array { element, length } => {
                    if is_slice_type(&Operand::get_type(source)) {
                        let element_size = match layout_size_bytes(element) {
                            Ok(value) => value,
                            Err(error) => return Err(error),
                        };
                        define_type(element, defs);
                        let pointer_ty = pointer_type(&RustType::jvm_type(element));
                        let pointer_dest = code.fresh("union_array_reference_pointer");
                        let element_codec = pointer_view_codec_operand(element, defs);
                        code.push(
                            static_call(
                                pointer_dest.as_str(),
                                POINTER_CLASS,
                                "fromSlice",
                                &static_signature(
                                    &make_params3(
                                        "slice",
                                        &object_type(),
                                        "element_size",
                                        &Type::U64,
                                        "codec",
                                        &java_string(),
                                    ),
                                    &pointer_ty,
                                ),
                                &make_args3(
                                    source,
                                    &u64_operand(size_as_u64(element_size)),
                                    &codec_operand(&element_codec),
                                ),
                            ),
                        );
                        let address_dest = code.fresh("union_array_reference_address");
                        let _count = match concrete_length_of(length, pointee) {
                            Ok(value) => value,
                            Err(error) => return Err(error),
                        };
                        let pointer_codec = pointer_builtin_codec_operand(ty, defs);
                        let storage_offset = UnionStorage::byte_index(storage, base_offset, code);
                        let encoded = match jvm_size_or(
                            size,
                            "pointer layout exceeds JVM address space",
                        ) {
                            Ok(value) => value,
                            Err(error) => return Err(error),
                        };
                        code.push(
                            static_call(
                                address_dest.as_str(),
                                POINTER_CLASS,
                                "encodedAddress",
                                &encoded_address_signature(&pointer_ty),
                                &make_args5(
                                    &operand_var(pointer_dest.as_str(), &pointer_ty),
                                    &operand_var(storage.bytes_var.as_str(), &byte_array_type()),
                                    &storage_offset,
                                    &i32_operand(encoded),
                                    &codec_operand(&pointer_codec),
                                ),
                            ),
                        );
                        emit_bits_to_union_bytes(
                            &operand_var(address_dest.as_str(), &Type::U64),
                            &Type::U64,
                            size,
                            storage,
                            base_offset,
                            code,
                        );
                        Ok(())
                    } else if is_pointer_type(&RustType::jvm_type(ty)) {
                        emit_direct_pointer_to_union_bytes(
                            ty,
                            source,
                            storage,
                            base_offset,
                            code,
                            defs,
                        )
                    } else {
                        emit_other_to_union_bytes(
                            ty,
                            size,
                            source,
                            storage,
                            base_offset,
                            code,
                            defs,
                        )
                    }
                },
                _ => {
                    if is_pointer_type(&RustType::jvm_type(ty)) {
                        emit_direct_pointer_to_union_bytes(
                            ty,
                            source,
                            storage,
                            base_offset,
                            code,
                            defs,
                        )
                    } else {
                        emit_other_to_union_bytes(
                            ty,
                            size,
                            source,
                            storage,
                            base_offset,
                            code,
                            defs,
                        )
                    }
                },
            }
        },
        TypeKind::RawPtr { pointee, .. } => {
            if is_pointer_type(&RustType::jvm_type(ty)) {
                emit_direct_pointer_to_union_bytes(ty, source, storage, base_offset, code, defs)
            } else {
                emit_other_to_union_bytes(ty, size, source, storage, base_offset, code, defs)
            }
        },
        TypeKind::Float(FloatKind::F128) => {
            let low = emit_f128_half(source, "lowBits", code);
            emit_bits_to_union_bytes(&low, &Type::I64, 8, storage, base_offset, code);
            let high = emit_f128_half(source, "highBits", code);
            emit_bits_to_union_bytes(
                &high,
                &Type::I64,
                8,
                storage,
                add_offsets(base_offset, 8),
                code,
            );
            Ok(())
        },
        TypeKind::Tuple { class_name, elements } => {
            define_fields(elements, defs);
            let slots = plan_slots(SlotNames::Elements, class_name.as_str(), elements, defs);
            emit_aggregate_to_union_bytes(
                elements,
                &slots,
                class_name.as_str(),
                source,
                storage,
                base_offset,
                code,
                defs,
            )
        },
        TypeKind::Closure { class_name, captures, .. } => {
            define_closure_parts(class_name.as_str(), captures, defs);
            let slots = plan_slots(SlotNames::Captures, class_name.as_str(), captures, defs);
            emit_aggregate_to_union_bytes(
                captures,
                &slots,
                class_name.as_str(),
                source,
                storage,
                base_offset,
                code,
                defs,
            )
        },
        TypeKind::Array { element, .. } => {
            let element_size = match layout_size_bytes(element) {
                Ok(value) => value,
                Err(error) => return Err(error),
            };
            let offset = UnionStorage::byte_index(storage, base_offset, code);
            let codec = pointer_view_codec_operand(element, defs);
            code.push(
                static_run(
                    POINTER_CLASS,
                    "encodeArrayMemory",
                    &static_signature(
                        &make_params5(
                            "array",
                            &object_type(),
                            "bytes",
                            &byte_array_type(),
                            "offset",
                            &Type::I32,
                            "element_size",
                            &Type::I32,
                            "codec",
                            &java_string(),
                        ),
                        &Type::Void,
                    ),
                    &make_args5(
                        source,
                        &operand_var(storage.bytes_var.as_str(), &byte_array_type()),
                        &offset,
                        &i32_operand(small_number_of(element_size)),
                        &codec_operand(&codec),
                    ),
                ),
            );
            Ok(())
        },
        TypeKind::Coroutine(coroutine) => {
            let codec = match ensure_coroutine_codec(ty, coroutine, defs) {
                Ok(value) => value,
                Err(error) => return Err(error),
            };
            let encoded = code.fresh("nested_coroutine_bytes");
            let nested_objects = code.fresh("nested_coroutine_objects");
            code.push(
                static_call(
                    encoded.as_str(),
                    codec.as_str(),
                    "encode",
                    &static_signature(
                        &make_params1("value", &RustType::jvm_type(ty)),
                        &byte_array_type(),
                    ),
                    &make_args1(source),
                ),
            );
            code.push(
                array_new(
                    nested_objects.as_str(),
                    &object_type(),
                    &i32_operand(small_number_of(one_or_more(size))),
                ),
            );
            emit_union_storage_copy(
                &UnionStorage::at_start(encoded.as_str(), nested_objects.as_str()),
                0,
                storage,
                base_offset,
                size,
                code,
            );
            Ok(())
        },
        TypeKind::Adt(adt) => {
            define_whole(ty, adt, defs);
            if is_pointer_type(&RustType::jvm_type(ty)) {
                emit_direct_pointer_to_union_bytes(ty, source, storage, base_offset, code, defs)
            } else {
                emit_adt_to_union_bytes(ty, adt, size, source, storage, base_offset, code, defs)
            }
        },
        _ => {
            emit_other_to_union_bytes(ty, size, source, storage, base_offset, code, defs)
        },
    }
}

/// One half of a 128-bit floating-point number.
#[verifier::opaque]
pub open spec fn f128_half(
    source: OperandModel,
    method_name: Text,
    code: CodeModel,
) -> (CodeModel, OperandModel) {
    let (code, bits_dest) = fresh(code, "union_f128_bits"@);
    let code = emit(
        code,
        calls_virtual(
            bits_dest,
            F128_CLASS@,
            method_name,
            instance_method(params0(), Type::I64),
            args0(),
            source,
        ),
    );
    (code, variable(bits_dest, Type::I64))
}

/// Takes one half of a 128-bit floating-point number.
pub fn emit_f128_half(source: &Operand, method_name: &str, code: &mut Code) -> (r: Operand)
    ensures
        (
            final(code).deep_view(),
            r.deep_view(),
        ) == f128_half(source.deep_view(), method_name@, old(code).deep_view()),
{
    proof {
        reveal(f128_half);
    }
    let bits_dest = code.fresh("union_f128_bits");
    code.push(
        virtual_call(
            bits_dest.as_str(),
            F128_CLASS,
            method_name,
            &instance_signature(&make_params0(), &Type::I64),
            &make_args0(),
            source,
        ),
    );
    operand_var(bits_dest.as_str(), &Type::I64)
}

/// Stores a named type: enums through their methods, unions by copying, structs field by field.
pub open spec fn stored_adt(
    ty: RustType,
    adt: Adt,
    size: usize,
    source: OperandModel,
    storage: UnionStorageModel,
    base_offset: usize,
    code: CodeModel,
    defs: DefinitionsModel,
) -> (CodeModel, DefinitionsModel, Result<(), Text>)
    decreases adt, 9nat, 0nat,
{
    match adt.shape {
        Shape::Enum => {
            match class_or(lowered(ty), ("enum "@ + ty.text@ + " did not map to a JVM class"@)) {
                Err(error) => (code, defs, Err(error)),
                Ok(enum_class) => {
                    let (defs, outcome) = enum_codec(ty, adt, enum_class, defs);
                    match outcome {
                        Err(error) => (code, defs, Err(error)),
                        Ok(_) => {
                            let (code, offset) = byte_position(storage, base_offset, code);
                            let code = emit(
                                code,
                                runs_virtual(
                                    enum_class,
                                    ENUM_WRITE_UNION_STORAGE_METHOD@,
                                    enum_writer(enum_class),
                                    args3(
                                        variable(storage.bytes_var, byte_array()),
                                        variable(storage.objects_var, object_array()),
                                        offset,
                                    ),
                                    source,
                                ),
                            );
                            (code, defs, Ok(()))
                        },
                    }
                },
            }
        },
        Shape::Union => {
            match class_or(lowered(ty), ("union "@ + ty.text@ + " did not map to a JVM class"@)) {
                Err(error) => (code, defs, Err(error)),
                Ok(union_class) => {
                    let (code, bytes_dest) = fresh(code, "nested_union_bytes"@);
                    let (code, objects_dest) = fresh(code, "nested_union_objects"@);
                    let code = emit(
                        code,
                        reads_field(
                            bytes_dest,
                            source,
                            UNION_BYTES_FIELD@,
                            byte_array(),
                            union_class,
                        ),
                    );
                    let code = emit(
                        code,
                        reads_field(
                            objects_dest,
                            source,
                            UNION_OBJECTS_FIELD@,
                            object_array(),
                            union_class,
                        ),
                    );
                    let code = copied_storage(
                        storage_at_start(bytes_dest, objects_dest),
                        0,
                        storage,
                        base_offset,
                        size,
                        code,
                    );
                    (code, defs, Ok(()))
                },
            }
        },
        Shape::Struct => {
            if is_laid_out_struct(adt) {
                let variant = (adt.variants@[0]);
                let defs = struct_parts_defined(adt, defs);
                let slots = slots_of_fields(
                    SlotNames::Declared,
                    adt.class_name@,
                    variant.fields@,
                    defs,
                );
                stored_fields(
                    variant.fields@,
                    slots,
                    adt.class_name@,
                    source,
                    storage,
                    base_offset,
                    0,
                    code,
                    defs,
                )
            } else if is_reference(lowered(ty)) {
                let code = stored_object(source, storage, base_offset, code);
                (code, defs, Ok(()))
            } else {
                (code, defs, Err(("cannot store unresolved struct "@ + ty.text@ + " in a union"@)))
            }
        },
    }
}

/// Stores a value of a named type.
pub fn emit_adt_to_union_bytes(
    ty: &RustType,
    adt: &Adt,
    size: usize,
    source: &Operand,
    storage: &UnionStorage,
    base_offset: usize,
    code: &mut Code,
    defs: &mut Definitions,
) -> (r: Result<(), String>)
    requires
        adt_valid(*adt), adt.shape is Union ==> size <= i32::MAX,
    ensures
        (final(code).deep_view(), final(defs).deep_view(), unit_outcome(r)) == stored_adt(
            *ty,
            *adt,
            size,
            source.deep_view(),
            storage.deep_view(),
            base_offset,
            old(code).deep_view(),
            old(defs).deep_view(),
        ),
    decreases adt, 9nat,
{
    match &adt.shape {
        Shape::Enum => {
            let enum_class = match class_name_or(
                &RustType::jvm_type(ty),
                cat3("enum ", ty.text.as_str(), " did not map to a JVM class").as_str(),
            ) {
                Ok(value) => value,
                Err(error) => return Err(error),
            };
            let _done = match ensure_enum_union_codec(ty, adt, enum_class.as_str(), defs) {
                Ok(value) => value,
                Err(error) => return Err(error),
            };
            let offset = UnionStorage::byte_index(storage, base_offset, code);
            code.push(
                virtual_run(
                    enum_class.as_str(),
                    ENUM_WRITE_UNION_STORAGE_METHOD,
                    &enum_union_write_signature(enum_class.as_str()),
                    &make_args3(
                        &operand_var(storage.bytes_var.as_str(), &byte_array_type()),
                        &operand_var(storage.objects_var.as_str(), &object_array_type()),
                        &offset,
                    ),
                    source,
                ),
            );
            Ok(())
        },
        Shape::Union => {
            let union_class = match class_name_or(
                &RustType::jvm_type(ty),
                cat3("union ", ty.text.as_str(), " did not map to a JVM class").as_str(),
            ) {
                Ok(value) => value,
                Err(error) => return Err(error),
            };
            let bytes_dest = code.fresh("nested_union_bytes");
            let objects_dest = code.fresh("nested_union_objects");
            code.push(
                field_read(
                    bytes_dest.as_str(),
                    source,
                    UNION_BYTES_FIELD,
                    &byte_array_type(),
                    union_class.as_str(),
                ),
            );
            code.push(
                field_read(
                    objects_dest.as_str(),
                    source,
                    UNION_OBJECTS_FIELD,
                    &object_array_type(),
                    union_class.as_str(),
                ),
            );
            emit_union_storage_copy(
                &UnionStorage::at_start(bytes_dest.as_str(), objects_dest.as_str()),
                0,
                storage,
                base_offset,
                size,
                code,
            );
            Ok(())
        },
        Shape::Struct => {
            if is_known_struct(adt) {
                let variant = &first_variant_of(adt);
                define_struct_parts(adt, defs);
                let slots = plan_slots(
                    SlotNames::Declared,
                    adt.class_name.as_str(),
                    &variant.fields,
                    defs,
                );
                emit_aggregate_to_union_bytes(
                    &variant.fields,
                    &slots,
                    adt.class_name.as_str(),
                    source,
                    storage,
                    base_offset,
                    code,
                    defs,
                )
            } else if Type::is_jvm_reference_type(&RustType::jvm_type(ty)) {
                emit_object_to_union_storage(source, storage, base_offset, code);
                Ok(())
            } else {
                Err(cat3("cannot store unresolved struct ", ty.text.as_str(), " in a union"))
            }
        },
    }
}

/// Stores a value that only the runtime can address.
pub open spec fn stored_other(
    ty: RustType,
    size: usize,
    source: OperandModel,
    storage: UnionStorageModel,
    base_offset: usize,
    code: CodeModel,
    defs: DefinitionsModel,
) -> (CodeModel, DefinitionsModel, Result<(), Text>)
    decreases ty, 2nat, 0nat,
{
    let defs = type_defined(ty, defs);
    if is_reference(lowered(ty)) {
        let code = stored_managed_object(source, size, storage, base_offset, code);
        (code, defs, Ok(()))
    } else {
        (
            code,
            defs,
            Err(
                ("unsupported union field type "@ + ty.text@ + ": JVM representation "@ + plain_type_name(lowered(ty)) + " is neither byte-addressable nor a reference"@),
            ),
        )
    }
}

/// Stores a value that only the runtime can address.
pub fn emit_other_to_union_bytes(
    ty: &RustType,
    size: usize,
    source: &Operand,
    storage: &UnionStorage,
    base_offset: usize,
    code: &mut Code,
    defs: &mut Definitions,
) -> (r: Result<(), String>)
    requires
        valid(*ty),
    ensures
        (final(code).deep_view(), final(defs).deep_view(), unit_outcome(r)) == stored_other(
            *ty,
            size,
            source.deep_view(),
            storage.deep_view(),
            base_offset,
            old(code).deep_view(),
            old(defs).deep_view(),
        ),
    decreases ty, 2nat,
{
    define_type(ty, defs);
    if Type::is_jvm_reference_type(&RustType::jvm_type(ty)) {
        emit_managed_object_to_union_bytes(source, size, storage, base_offset, code);
        Ok(())
    } else {
        Err(
            cat5(
                "unsupported union field type ",
                ty.text.as_str(),
                ": JVM representation ",
                type_text(&RustType::jvm_type(ty)).as_str(),
                " is neither byte-addressable nor a reference",
            ),
        )
    }
}

/// Stores the address of a pointer.
pub open spec fn stored_pointer(
    ty: RustType,
    source: OperandModel,
    storage: UnionStorageModel,
    base_offset: usize,
    code: CodeModel,
    defs: DefinitionsModel,
) -> (CodeModel, DefinitionsModel, Result<(), Text>)
    decreases ty, 2nat, 0nat,
{
    match pointee_of(ty) {
        None => {
            (code, defs, Err(("NonNull pointer has no pointee type: "@ + ty.text@)))
        },
        Some(pointee) => {
            let defs = type_defined(ty, defs);
            let (defs, codec) = builtin_codec(ty, defs);
            match size_of(ty) {
                Err(error) => (code, defs, Err(error)),
                Ok(size) => {
                    if is_dynamic(pointee) {
                        let (code, address_dest) = fresh(code, "union_pointer_address"@);
                        let code = emit(
                            code,
                            calls_static(
                                address_dest,
                                POINTER_CLASS@,
                                "erasedAddress"@,
                                static_method(params1("pointer"@, lowered(ty)), Type::U64),
                                args1(source),
                            ),
                        );
                        let code = stored_bits(
                            variable(address_dest, Type::U64),
                            Type::U64,
                            size as nat,
                            storage,
                            base_offset,
                            code,
                        );
                        (code, defs, Ok(()))
                    } else {
                        match codec {
                            Some(text) => {
                                let (
                                    code,
                                    storage_offset,
                                ) = byte_position(storage, base_offset, code);
                                let (code, address_dest) = fresh(code, "union_pointer_address"@);
                                match jvm_size(size, "pointer layout exceeds JVM address space"@) {
                                    Err(error) => (code, defs, Err(error)),
                                    Ok(encoded) => {
                                        let code = emit(
                                            code,
                                            calls_static(
                                                address_dest,
                                                POINTER_CLASS@,
                                                "encodedAddress"@,
                                                encoded_address(lowered(ty)),
                                                args5(
                                                    source,
                                                    variable(storage.bytes_var, byte_array()),
                                                    storage_offset,
                                                    i32_value(encoded),
                                                    text_value(text),
                                                ),
                                            ),
                                        );
                                        let code = stored_bits(
                                            variable(address_dest, Type::U64),
                                            Type::U64,
                                            size as nat,
                                            storage,
                                            base_offset,
                                            code,
                                        );
                                        (code, defs, Ok(()))
                                    },
                                }
                            },
                            None => {
                                let (code, address_dest) = fresh(code, "union_pointer_address"@);
                                let code = emit(
                                    code,
                                    calls_static(
                                        address_dest,
                                        POINTER_CLASS@,
                                        "encodedAddress"@,
                                        static_method(
                                            params2(
                                                "pointer"@,
                                                lowered(ty),
                                                "owner"@,
                                                object_class(),
                                            ),
                                            Type::U64,
                                        ),
                                        args2(source, variable(storage.bytes_var, byte_array())),
                                    ),
                                );
                                let code = stored_bits(
                                    variable(address_dest, Type::U64),
                                    Type::U64,
                                    size as nat,
                                    storage,
                                    base_offset,
                                    code,
                                );
                                (code, defs, Ok(()))
                            },
                        }
                    }
                },
            }
        },
    }
}

/// Stores the address of a pointer.
pub fn emit_direct_pointer_to_union_bytes(
    ty: &RustType,
    source: &Operand,
    storage: &UnionStorage,
    base_offset: usize,
    code: &mut Code,
    defs: &mut Definitions,
) -> (r: Result<(), String>)
    requires
        valid(*ty),
    ensures
        (final(code).deep_view(), final(defs).deep_view(), unit_outcome(r)) == stored_pointer(
            *ty,
            source.deep_view(),
            storage.deep_view(),
            base_offset,
            old(code).deep_view(),
            old(defs).deep_view(),
        ),
    decreases ty, 2nat,
{
    match &get_pointee(ty) {
        None => {
            Err(cat2("NonNull pointer has no pointee type: ", ty.text.as_str()))
        },
        Some(pointee) => {
            define_type(ty, defs);
            let codec = pointer_builtin_codec_operand(ty, defs);
            let size = match layout_size_bytes(ty) {
                Ok(value) => value,
                Err(error) => return Err(error),
            };
            if is_trait_object(pointee) {
                let address_dest = code.fresh("union_pointer_address");
                code.push(
                    static_call(
                        address_dest.as_str(),
                        POINTER_CLASS,
                        "erasedAddress",
                        &static_signature(
                            &make_params1("pointer", &RustType::jvm_type(ty)),
                            &Type::U64,
                        ),
                        &make_args1(source),
                    ),
                );
                emit_bits_to_union_bytes(
                    &operand_var(address_dest.as_str(), &Type::U64),
                    &Type::U64,
                    size,
                    storage,
                    base_offset,
                    code,
                );
                Ok(())
            } else {
                match &codec {
                    Some(text) => {
                        let storage_offset = UnionStorage::byte_index(storage, base_offset, code);
                        let address_dest = code.fresh("union_pointer_address");
                        let encoded = match jvm_size_or(
                            size,
                            "pointer layout exceeds JVM address space",
                        ) {
                            Ok(value) => value,
                            Err(error) => return Err(error),
                        };
                        code.push(
                            static_call(
                                address_dest.as_str(),
                                POINTER_CLASS,
                                "encodedAddress",
                                &encoded_address_signature(&RustType::jvm_type(ty)),
                                &make_args5(
                                    source,
                                    &operand_var(storage.bytes_var.as_str(), &byte_array_type()),
                                    &storage_offset,
                                    &i32_operand(encoded),
                                    &text_operand(text.as_str()),
                                ),
                            ),
                        );
                        emit_bits_to_union_bytes(
                            &operand_var(address_dest.as_str(), &Type::U64),
                            &Type::U64,
                            size,
                            storage,
                            base_offset,
                            code,
                        );
                        Ok(())
                    },
                    None => {
                        let address_dest = code.fresh("union_pointer_address");
                        code.push(
                            static_call(
                                address_dest.as_str(),
                                POINTER_CLASS,
                                "encodedAddress",
                                &static_signature(
                                    &make_params2(
                                        "pointer",
                                        &RustType::jvm_type(ty),
                                        "owner",
                                        &object_type(),
                                    ),
                                    &Type::U64,
                                ),
                                &make_args2(
                                    source,
                                    &operand_var(storage.bytes_var.as_str(), &byte_array_type()),
                                ),
                            ),
                        );
                        emit_bits_to_union_bytes(
                            &operand_var(address_dest.as_str(), &Type::U64),
                            &Type::U64,
                            size,
                            storage,
                            base_offset,
                            code,
                        );
                        Ok(())
                    },
                }
            }
        },
    }
}

} // verus!
