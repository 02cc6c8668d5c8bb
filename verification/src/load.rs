//! Code that reads Rust values back from byte storage. As for storing, the classes that it names
//! are
//! defined on the way.
use crate::code::{
    Code, CodeModel, Definitions, DefinitionsModel, append_value, args1, args3, args4, args5,
    array_new, array_of, array_type, byte_array, byte_array_type, calls_static, cast, class,
    class_type, constant_operand, constant_value, construct, converts, emit, fresh, i32_operand,
    i32_value, java_string, make_args1, make_args3, make_args4, make_args5, make_params1,
    make_params4, make_params5, make_typed0, make_typed2, make_typed3, makes_array, makes_object,
    object_array, object_array_type, object_class, object_type, operand_var, outcome_model,
    params1, params4, params5, pointer_to, pointer_type, runs_static, slice_of, slice_type,
    static_call, static_method, static_run, static_signature, string_class, text_operand,
    text_value, typed0, typed2, typed3, u64_operand, u64_value, unit_operand, unit_outcome,
    unit_value, value_appended, variable,
};
use crate::codec::{
    ENUM_READ_UNION_STORAGE_METHOD, class_name_or, class_or, codec_operand, codec_value,
    concrete_length, concrete_length_of, default_operand_for_codec, default_value, enum_reader,
    enum_union_read_signature, first_variant_of, from_address, from_address_signature,
    from_encoded_address, from_encoded_address_signature, get_pointee, has_no_fields,
    is_empty_list, is_known_struct, is_laid_out_struct, is_pointer, is_pointer_type, jvm_size,
    jvm_size_or, length_number, length_number_of, plain_type_name, pointee_is_inside, pointee_of,
    size_as_u64, type_text,
};
use crate::coroutine_codec::{coroutine_codec, ensure_coroutine_codec};
use crate::descriptor::{POINTER_CLASS, SLICE_VIEW_CLASS, is_reference};
use crate::enum_codec::{ensure_enum_union_codec, enum_codec};
use crate::layout::{
    Slot, SlotModel, SlotNames, adt_valid, all_valid, get_slot, plan_slots, slot_at,
    slots_of_fields, valid,
};
use crate::lowering::{
    closure_parts_defined, define_closure_parts, define_fields, define_struct_parts, define_type,
    define_whole, defined_fields, struct_parts_defined, type_defined, whole_defined,
};
use crate::oomir::{Operand, OperandModel, Text, Type, TypeModel, has_value};
use crate::pointer_codec::{
    builtin_codec, fat_codec, fat_pointer_codec_operand, pointer_builtin_codec_operand,
    pointer_view_codec_operand, view_codec,
};
use crate::rust_type::{
    Adt, Field, FloatKind, RustType, Shape, TypeKind, ZeroSized, at_least_one,
    is_direct_union_scalar, is_dynamic, is_scalar, is_trait_object, layout_size_bytes, lowered,
    objects_size, one_or_more, size_of, union_object_storage_size,
};
use crate::scalar::{emit_scalar_from_union_bytes, loaded_scalar};
use crate::text::{cat2, cat3, cat5};
use crate::union_storage::{
    F128_CLASS, UnionStorage, UnionStorageModel, add_offsets, allocate_union_object_storage,
    byte_position, copied_storage, emit_bits_from_union_bytes,
    emit_managed_object_from_union_bytes, emit_object_from_union_storage, emit_union_storage_copy,
    loaded_bits, loaded_managed_object, loaded_object, makes_objects, offset_sum, small_number,
    small_number_of, storage_at_start,
};
use vstd::prelude::*;
use vstd::string::*;

verus! {

/// The values of the parts of an aggregate, from one on.
pub open spec fn loaded_fields(
    fields: Seq<Field>,
    slots: Seq<Option<SlotModel>>,
    storage: UnionStorageModel,
    base_offset: usize,
    from: nat,
    code: CodeModel,
    defs: DefinitionsModel,
    values: Seq<(OperandModel, TypeModel)>,
) -> (CodeModel, DefinitionsModel, Seq<(OperandModel, TypeModel)>, Result<(), Text>)
    decreases fields, 0nat, fields.len() - from,
{
    if from >= fields.len() {
        (code, defs, values, Ok(()))
    } else {
        let item = fields[from as int];
        match slot_at(slots, (from as usize)) {
            None => {
                loaded_fields(fields, slots, storage, base_offset, from + 1, code, defs, values)
            },
            Some(slot) => {
                if is_dynamic(item.ty) {
                    let values = value_appended(default_value(slot.ty), slot.ty, values);
                    loaded_fields(fields, slots, storage, base_offset, from + 1, code, defs, values)
                } else {
                    let (code, defs, outcome) = loaded(
                        item.ty,
                        storage,
                        offset_sum(base_offset, item.offset),
                        code,
                        defs,
                    );
                    match outcome {
                        Err(error) => (code, defs, values, Err(error)),
                        Ok(value) => {
                            let values = value_appended(value, slot.ty, values);
                            loaded_fields(
                                fields,
                                slots,
                                storage,
                                base_offset,
                                from + 1,
                                code,
                                defs,
                                values,
                            )
                        },
                    }
                }
            },
        }
    }
}

/// Loads the parts of an aggregate; trait objects are left out.
pub fn emit_fields_from_union_bytes(
    fields: &Vec<Field>,
    slots: &Vec<Option<Slot>>,
    storage: &UnionStorage,
    base_offset: usize,
    code: &mut Code,
    defs: &mut Definitions,
    values: &mut Vec<(Operand, Type)>,
) -> (r: Result<(), String>)
    requires
        all_valid(fields@),
    ensures
        (
            final(code).deep_view(),
            final(defs).deep_view(),
            final(values).deep_view(),
            unit_outcome(r),
        ) == loaded_fields(
            fields@,
            slots.deep_view(),
            storage.deep_view(),
            base_offset,
            0,
            old(code).deep_view(),
            old(defs).deep_view(),
            old(values).deep_view(),
        ),
    decreases fields@, 0nat,
{
    let ghost start = loaded_fields(
            fields@,
            slots.deep_view(),
            storage.deep_view(),
            base_offset,
            0,
            code.deep_view(),
            defs.deep_view(),
            values.deep_view(),
        );
    for i in 0..fields.len()
        invariant
            all_valid(fields@),
            loaded_fields(
                fields@,
                slots.deep_view(),
                storage.deep_view(),
                base_offset,
                i as nat,
                code.deep_view(),
                defs.deep_view(),
                values.deep_view(),
            ) == start,
            start == loaded_fields(
                fields@,
                slots.deep_view(),
                storage.deep_view(),
                base_offset,
                0,
                old(code).deep_view(),
                old(defs).deep_view(),
                old(values).deep_view(),
            ),
    {
        let item = &fields[i];
        match &get_slot(slots, i) {
            None => {

            },
            Some(slot) => {
                if is_trait_object(&item.ty) {
                    append_value(&default_operand_for_codec(&slot.ty), &slot.ty, values);
                } else {
                    let value = match emit_ty_from_union_bytes(
                        &item.ty,
                        storage,
                        add_offsets(base_offset, item.offset),
                        code,
                        defs,
                    ) {
                        Ok(value) => value,
                        Err(error) => return Err(error),
                    };
                    append_value(&value, &slot.ty, values);
                }
            },
        }
    }
    Ok(())
}

/// An aggregate built from its parts in storage.
pub open spec fn loaded_aggregate(
    fields: Seq<Field>,
    slots: Seq<Option<SlotModel>>,
    class_name: Text,
    storage: UnionStorageModel,
    base_offset: usize,
    code: CodeModel,
    defs: DefinitionsModel,
) -> (CodeModel, DefinitionsModel, Result<OperandModel, Text>)
    decreases fields, 1nat, 0nat,
{
    let values = typed0();
    let (
        code,
        defs,
        values,
        outcome,
    ) = loaded_fields(fields, slots, storage, base_offset, 0, code, defs, values);
    match outcome {
        Err(error) => (code, defs, Err(error)),
        Ok(_) => {
            let (code, dest) = fresh(code, "union_aggregate_value"@);
            let code = emit(code, makes_object(dest, class_name, values));
            (code, defs, Ok(variable(dest, class(class_name))))
        },
    }
}

/// Loads an aggregate part by part.
pub fn emit_aggregate_from_union_bytes(
    fields: &Vec<Field>,
    slots: &Vec<Option<Slot>>,
    class_name: &str,
    storage: &UnionStorage,
    base_offset: usize,
    code: &mut Code,
    defs: &mut Definitions,
) -> (r: Result<Operand, String>)
    requires
        all_valid(fields@),
    ensures
        (final(code).deep_view(), final(defs).deep_view(), outcome_model(r)) == loaded_aggregate(
            fields@,
            slots.deep_view(),
            class_name@,
            storage.deep_view(),
            base_offset,
            old(code).deep_view(),
            old(defs).deep_view(),
        ),
    decreases fields@, 1nat,
{
    let mut values = make_typed0();
    let _done = match emit_fields_from_union_bytes(
        fields,
        slots,
        storage,
        base_offset,
        code,
        defs,
        &mut values,
    ) {
        Ok(value) => value,
        Err(error) => return Err(error),
    };
    let dest = code.fresh("union_aggregate_value");
    code.push(construct(dest.as_str(), class_name, &values));
    Ok(operand_var(dest.as_str(), &class_type(class_name)))
}

/// The pointer whose address is stored.
pub open spec fn loaded_pointer(
    ty: RustType,
    storage: UnionStorageModel,
    base_offset: usize,
    code: CodeModel,
    defs: DefinitionsModel,
) -> (CodeModel, DefinitionsModel, Result<OperandModel, Text>)
    decreases ty, 2nat, 0nat,
{
    match pointee_of(ty) {
        None => {
            (code, defs, Err(("NonNull pointer has no pointee type: "@ + ty.text@)))
        },
        Some(pointee) => {
            let defs = type_defined(ty, defs);
            if is_dynamic(pointee) {
                match size_of(ty) {
                    Err(error) => (code, defs, Err(error)),
                    Ok(size) => {
                        let (code, bits) = loaded_bits(
                            Type::I64,
                            size as nat,
                            storage,
                            base_offset,
                            code,
                        );
                        let (code, pointer_dest) = fresh(code, "union_pointer_value"@);
                        let code = emit(
                            code,
                            calls_static(
                                pointer_dest,
                                POINTER_CLASS@,
                                "fromErasedAddress"@,
                                static_method(params1("address"@, Type::U64), lowered(ty)),
                                args1(bits),
                            ),
                        );
                        (code, defs, Ok(variable(pointer_dest, lowered(ty))))
                    },
                }
            } else {
                let (defs, pointer_codec) = builtin_codec(ty, defs);
                match size_of(ty) {
                    Err(error) => (code, defs, Err(error)),
                    Ok(size) => {
                        let (code, bits) = loaded_bits(
                            Type::I64,
                            size as nat,
                            storage,
                            base_offset,
                            code,
                        );
                        let (code, pointer_dest) = fresh(code, "union_pointer_value"@);
                        match size_of(pointee) {
                            Err(error) => (code, defs, Err(error)),
                            Ok(view_size) => {
                                proof { pointee_is_inside(ty); }
                                let (defs, view_codec) = view_codec(pointee, defs);
                                match pointer_codec {
                                    Some(text) => {
                                        let code = emit(
                                            code,
                                            calls_static(
                                                pointer_dest,
                                                POINTER_CLASS@,
                                                "fromEncodedAddress"@,
                                                from_encoded_address(lowered(ty)),
                                                args4(
                                                    bits,
                                                    u64_value(((view_size as u64))),
                                                    codec_value(view_codec),
                                                    text_value(text),
                                                ),
                                            ),
                                        );
                                        (code, defs, Ok(variable(pointer_dest, lowered(ty))))
                                    },
                                    None => {
                                        let code = emit(
                                            code,
                                            calls_static(
                                                pointer_dest,
                                                POINTER_CLASS@,
                                                "fromAddress"@,
                                                from_address(lowered(ty)),
                                                args3(
                                                    bits,
                                                    u64_value(((view_size as u64))),
                                                    codec_value(view_codec),
                                                ),
                                            ),
                                        );
                                        (code, defs, Ok(variable(pointer_dest, lowered(ty))))
                                    },
                                }
                            },
                        }
                    },
                }
            }
        },
    }
}

/// Loads a pointer from its address.
pub fn emit_direct_pointer_from_union_bytes(
    ty: &RustType,
    storage: &UnionStorage,
    base_offset: usize,
    code: &mut Code,
    defs: &mut Definitions,
) -> (r: Result<Operand, String>)
    requires
        valid(*ty),
    ensures
        (final(code).deep_view(), final(defs).deep_view(), outcome_model(r)) == loaded_pointer(
            *ty,
            storage.deep_view(),
            base_offset,
            old(code).deep_view(),
            old(defs).deep_view(),
        ),
    decreases ty, 2nat,
{
    match &get_pointee(ty) {
        None => {
            Err(cat2("NonNull pointer has no pointee type: ", ty.text.as_str()))
        },
        Some(pointee) => {
            define_type(ty, defs);
            if is_trait_object(pointee) {
                let size = match layout_size_bytes(ty) {
                    Ok(value) => value,
                    Err(error) => return Err(error),
                };
                let bits = emit_bits_from_union_bytes(&Type::I64, size, storage, base_offset, code);
                let pointer_dest = code.fresh("union_pointer_value");
                code.push(
                    static_call(
                        pointer_dest.as_str(),
                        POINTER_CLASS,
                        "fromErasedAddress",
                        &static_signature(
                            &make_params1("address", &Type::U64),
                            &RustType::jvm_type(ty),
                        ),
                        &make_args1(&bits),
                    ),
                );
                Ok(operand_var(pointer_dest.as_str(), &RustType::jvm_type(ty)))
            } else {
                let pointer_codec = pointer_builtin_codec_operand(ty, defs);
                let size = match layout_size_bytes(ty) {
                    Ok(value) => value,
                    Err(error) => return Err(error),
                };
                let bits = emit_bits_from_union_bytes(&Type::I64, size, storage, base_offset, code);
                let pointer_dest = code.fresh("union_pointer_value");
                let view_size = match layout_size_bytes(pointee) {
                    Ok(value) => value,
                    Err(error) => return Err(error),
                };
                proof { pointee_is_inside(*ty); }
                let view_codec = pointer_view_codec_operand(pointee, defs);
                match &pointer_codec {
                    Some(text) => {
                        code.push(
                            static_call(
                                pointer_dest.as_str(),
                                POINTER_CLASS,
                                "fromEncodedAddress",
                                &from_encoded_address_signature(&RustType::jvm_type(ty)),
                                &make_args4(
                                    &bits,
                                    &u64_operand(size_as_u64(view_size)),
                                    &codec_operand(&view_codec),
                                    &text_operand(text.as_str()),
                                ),
                            ),
                        );
                        Ok(operand_var(pointer_dest.as_str(), &RustType::jvm_type(ty)))
                    },
                    None => {
                        code.push(
                            static_call(
                                pointer_dest.as_str(),
                                POINTER_CLASS,
                                "fromAddress",
                                &from_address_signature(&RustType::jvm_type(ty)),
                                &make_args3(
                                    &bits,
                                    &u64_operand(size_as_u64(view_size)),
                                    &codec_operand(&view_codec),
                                ),
                            ),
                        );
                        Ok(operand_var(pointer_dest.as_str(), &RustType::jvm_type(ty)))
                    },
                }
            }
        },
    }
}

/// A value without bytes.
#[verifier::opaque]
pub open spec fn zero_sized_value(
    ty: RustType,
    code: CodeModel,
) -> (CodeModel, Result<OperandModel, Text>) {
    if !has_value(lowered(ty)) {
        (code, Ok(unit_value()))
    } else {
        match ty.zero_sized {
            ZeroSized::Constant(value) => {
                (code, Ok(constant_value(value.deep_view())))
            },
            ZeroSized::Instance { class_name } => {
                let (code, dest) = fresh(code, "union_zst_value"@);
                let code = emit(code, makes_object(dest, class_name@, typed0()));
                (code, Ok(variable(dest, class(class_name@))))
            },
            ZeroSized::Unknown => {
                let (code, dest) = fresh(code, "union_zst_value"@);
                (
                    code,
                    Err(
                        ("cannot materialize zero-sized value "@ + ty.text@ + " from Rust storage"@),
                    ),
                )
            },
        }
    }
}

/// Makes a value without bytes.
pub fn emit_zero_sized_value(ty: &RustType, code: &mut Code) -> (r: Result<Operand, String>)
    ensures
        (final(code).deep_view(), outcome_model(r)) == zero_sized_value(*ty, old(code).deep_view()),
{
    proof {
        reveal(zero_sized_value);
    }
    if !Type::has_jvm_value(&RustType::jvm_type(ty)) {
        Ok(unit_operand())
    } else {
        match &ty.zero_sized {
            ZeroSized::Constant(value) => {
                Ok(constant_operand(value))
            },
            ZeroSized::Instance { class_name } => {
                let dest = code.fresh("union_zst_value");
                code.push(construct(dest.as_str(), class_name.as_str(), &make_typed0()));
                Ok(operand_var(dest.as_str(), &class_type(class_name.as_str())))
            },
            ZeroSized::Unknown => {
                let dest = code.fresh("union_zst_value");
                Err(
                    cat3(
                        "cannot materialize zero-sized value ",
                        ty.text.as_str(),
                        " from Rust storage",
                    ),
                )
            },
        }
    }
}

/// The value in storage.
pub open spec fn loaded(
    ty: RustType,
    storage: UnionStorageModel,
    base_offset: usize,
    code: CodeModel,
    defs: DefinitionsModel,
) -> (CodeModel, DefinitionsModel, Result<OperandModel, Text>)
    decreases ty, 4nat, 0nat,
{
    match size_of(ty) {
        Err(error) => (code, defs, Err(error)),
        Ok(size) => {
            if size == 0 {
                let defs = type_defined(ty, defs);
                let (code, outcome) = zero_sized_value(ty, code);
                match outcome {
                    Err(error) => (code, defs, Err(error)),
                    Ok(value) => {
                        (code, defs, Ok(value))
                    },
                }
            } else if is_scalar(ty) {
                let (code, outcome) = loaded_scalar(ty, storage, base_offset, code);
                match outcome {
                    Err(error) => (code, defs, Err(error)),
                    Ok(value) => {
                        (code, defs, Ok(value))
                    },
                }
            } else {
                let (defs, fat) = fat_codec(ty, defs);
                match fat {
                    Some(codec) => {
                        let defs = type_defined(ty, defs);
                        let (code, offset) = byte_position(storage, base_offset, code);
                        let (code, object_dest) = fresh(code, "union_fat_pointer_object"@);
                        match jvm_size(size, "fat-pointer layout exceeds JVM address space"@) {
                            Err(error) => (code, defs, Err(error)),
                            Ok(encoded) => {
                                let code = emit(
                                    code,
                                    calls_static(
                                        object_dest,
                                        POINTER_CLASS@,
                                        "decodeFatPointerMemory"@,
                                        static_method(
                                            params4(
                                                "bytes"@,
                                                byte_array(),
                                                "offset"@,
                                                Type::I32,
                                                "size"@,
                                                Type::I32,
                                                "codec"@,
                                                string_class(),
                                            ),
                                            object_class(),
                                        ),
                                        args4(
                                            variable(storage.bytes_var, byte_array()),
                                            offset,
                                            i32_value(encoded),
                                            text_value(codec),
                                        ),
                                    ),
                                );
                                let (code, typed_dest) = fresh(code, "union_fat_pointer"@);
                                let code = emit(
                                    code,
                                    converts(
                                        variable(object_dest, object_class()),
                                        lowered(ty),
                                        typed_dest,
                                    ),
                                );
                                (code, defs, Ok(variable(typed_dest, lowered(ty))))
                            },
                        }
                    },
                    None => {
                        loaded_thin(ty, size, storage, base_offset, code, defs)
                    },
                }
            }
        },
    }
}

/// Loads a value from storage.
pub fn emit_ty_from_union_bytes(
    ty: &RustType,
    storage: &UnionStorage,
    base_offset: usize,
    code: &mut Code,
    defs: &mut Definitions,
) -> (r: Result<Operand, String>)
    requires
        valid(*ty),
    ensures
        (final(code).deep_view(), final(defs).deep_view(), outcome_model(r)) == loaded(
            *ty,
            storage.deep_view(),
            base_offset,
            old(code).deep_view(),
            old(defs).deep_view(),
        ),
    decreases ty, 4nat,
{
    let size = match layout_size_bytes(ty) {
        Ok(value) => value,
        Err(error) => return Err(error),
    };
    if size == 0 {
        define_type(ty, defs);
        let value = match emit_zero_sized_value(ty, code) {
            Ok(value) => value,
            Err(error) => return Err(error),
        };
        Ok(value)
    } else if is_direct_union_scalar(ty) {
        let value = match emit_scalar_from_union_bytes(ty, storage, base_offset, code) {
            Ok(value) => value,
            Err(error) => return Err(error),
        };
        Ok(value)
    } else {
        let fat = fat_pointer_codec_operand(ty, defs);
        match &fat {
            Some(codec) => {
                define_type(ty, defs);
                let offset = UnionStorage::byte_index(storage, base_offset, code);
                let object_dest = code.fresh("union_fat_pointer_object");
                let encoded = match jvm_size_or(
                    size,
                    "fat-pointer layout exceeds JVM address space",
                ) {
                    Ok(value) => value,
                    Err(error) => return Err(error),
                };
                code.push(
                    static_call(
                        object_dest.as_str(),
                        POINTER_CLASS,
                        "decodeFatPointerMemory",
                        &static_signature(
                            &make_params4(
                                "bytes",
                                &byte_array_type(),
                                "offset",
                                &Type::I32,
                                "size",
                                &Type::I32,
                                "codec",
                                &java_string(),
                            ),
                            &object_type(),
                        ),
                        &make_args4(
                            &operand_var(storage.bytes_var.as_str(), &byte_array_type()),
                            &offset,
                            &i32_operand(encoded),
                            &text_operand(codec.as_str()),
                        ),
                    ),
                );
                let typed_dest = code.fresh("union_fat_pointer");
                code.push(
                    cast(
                        &operand_var(object_dest.as_str(), &object_type()),
                        &RustType::jvm_type(ty),
                        typed_dest.as_str(),
                    ),
                );
                Ok(operand_var(typed_dest.as_str(), &RustType::jvm_type(ty)))
            },
            None => {
                emit_thin_from_union_bytes(ty, size, storage, base_offset, code, defs)
            },
        }
    }
}

/// The value in storage that is neither a number nor a pointer with metadata.
pub open spec fn loaded_thin(
    ty: RustType,
    size: usize,
    storage: UnionStorageModel,
    base_offset: usize,
    code: CodeModel,
    defs: DefinitionsModel,
) -> (CodeModel, DefinitionsModel, Result<OperandModel, Text>)
    decreases ty, 3nat, 0nat,
{
    match ty.kind {
        TypeKind::Pat(inner) => {
            loaded((*inner), storage, base_offset, code, defs)
        },
        TypeKind::Ref { pointee, .. } => {
            match (*pointee).kind {
                TypeKind::Array { element, length } => {
                    let defs = type_defined(ty, defs);
                    match concrete_length(length, (*pointee)) {
                        Err(error) => (code, defs, Err(error)),
                        Ok(count) => {
                            let pointer_ty = pointer_to(lowered((*element)));
                            let slice_ty = slice_of(lowered((*element)));
                            let (code, address) = loaded_bits(
                                Type::U64,
                                size as nat,
                                storage,
                                base_offset,
                                code,
                            );
                            let (code, pointer_dest) = fresh(
                                code,
                                "union_array_reference_pointer"@,
                            );
                            let (defs, pointer_codec) = builtin_codec(ty, defs);
                            match size_of((*element)) {
                                Err(error) => (code, defs, Err(error)),
                                Ok(view_size) => {
                                    let (defs, view_codec) = view_codec((*element), defs);
                                    let code = emit(
                                        code,
                                        calls_static(
                                            pointer_dest,
                                            POINTER_CLASS@,
                                            "fromEncodedAddress"@,
                                            from_encoded_address(pointer_ty),
                                            args4(
                                                address,
                                                u64_value(((view_size as u64))),
                                                codec_value(view_codec),
                                                codec_value(pointer_codec),
                                            ),
                                        ),
                                    );
                                    let (code, object_dest) = fresh(
                                        code,
                                        "union_array_reference_view"@,
                                    );
                                    let code = emit(
                                        code,
                                        makes_object(
                                            object_dest,
                                            SLICE_VIEW_CLASS@,
                                            typed3(
                                                variable(pointer_dest, pointer_ty),
                                                object_class(),
                                                i32_value(0),
                                                Type::I32,
                                                u64_value(count),
                                                Type::U64,
                                            ),
                                        ),
                                    );
                                    let (code, slice_dest) = fresh(
                                        code,
                                        "union_array_reference_slice"@,
                                    );
                                    let code = emit(
                                        code,
                                        converts(
                                            variable(object_dest, class(SLICE_VIEW_CLASS@)),
                                            slice_ty,
                                            slice_dest,
                                        ),
                                    );
                                    (code, defs, Ok(variable(slice_dest, slice_ty)))
                                },
                            }
                        },
                    }
                },
                _ => {
                    if is_pointer(lowered(ty)) {
                        loaded_pointer(ty, storage, base_offset, code, defs)
                    } else {
                        loaded_other(ty, size, storage, base_offset, code, defs)
                    }
                },
            }
        },
        TypeKind::RawPtr { pointee, .. } => {
            if is_pointer(lowered(ty)) {
                loaded_pointer(ty, storage, base_offset, code, defs)
            } else {
                loaded_other(ty, size, storage, base_offset, code, defs)
            }
        },
        TypeKind::Float(FloatKind::F128) => {
            let (code, low) = loaded_bits(Type::I64, 8 as nat, storage, base_offset, code);
            let (code, high) = loaded_bits(
                Type::I64,
                8 as nat,
                storage,
                offset_sum(base_offset, 8),
                code,
            );
            let (code, dest) = fresh(code, "union_f128_value"@);
            let code = emit(
                code,
                makes_object(dest, F128_CLASS@, typed2(high, Type::I64, low, Type::I64)),
            );
            (code, defs, Ok(variable(dest, class(F128_CLASS@))))
        },
        TypeKind::Tuple { class_name, elements } => {
            if is_empty_list(elements@) {
                (code, defs, Ok(unit_value()))
            } else {
                let defs = defined_fields(elements@, 0, defs);
                let slots = slots_of_fields(SlotNames::Elements, class_name@, elements@, defs);
                loaded_aggregate(elements@, slots, class_name@, storage, base_offset, code, defs)
            }
        },
        TypeKind::Closure { class_name, captures, .. } => {
            let defs = closure_parts_defined(class_name@, captures@, defs);
            let slots = slots_of_fields(SlotNames::Captures, class_name@, captures@, defs);
            loaded_aggregate(captures@, slots, class_name@, storage, base_offset, code, defs)
        },
        TypeKind::Array { element, length } => {
            match concrete_length(length, ty) {
                Err(error) => (code, defs, Err(error)),
                Ok(count) => {
                    match size_of((*element)) {
                        Err(error) => (code, defs, Err(error)),
                        Ok(element_size) => {
                            let defs = type_defined((*element), defs);
                            let array_ty = array_of(lowered((*element)));
                            let (code, array_dest) = fresh(code, "union_array_value"@);
                            let code = emit(
                                code,
                                makes_array(
                                    array_dest,
                                    lowered((*element)),
                                    i32_value(length_number(count)),
                                ),
                            );
                            let (code, offset) = byte_position(storage, base_offset, code);
                            let (defs, codec) = view_codec((*element), defs);
                            let code = emit(
                                code,
                                runs_static(
                                    POINTER_CLASS@,
                                    "decodeArrayMemory"@,
                                    static_method(
                                        params5(
                                            "bytes"@,
                                            byte_array(),
                                            "offset"@,
                                            Type::I32,
                                            "array"@,
                                            object_class(),
                                            "element_size"@,
                                            Type::I32,
                                            "codec"@,
                                            string_class(),
                                        ),
                                        Type::Void,
                                    ),
                                    args5(
                                        variable(storage.bytes_var, byte_array()),
                                        offset,
                                        variable(array_dest, array_ty),
                                        i32_value(small_number(element_size)),
                                        codec_value(codec),
                                    ),
                                ),
                            );
                            (code, defs, Ok(variable(array_dest, array_ty)))
                        },
                    }
                },
            }
        },
        TypeKind::Coroutine(coroutine) => {
            let (defs, outcome) = coroutine_codec(ty, coroutine, defs);
            match outcome {
                Err(error) => (code, defs, Err(error)),
                Ok(codec) => {
                    let (code, nested_bytes) = fresh(code, "nested_coroutine_bytes"@);
                    let (code, nested_objects) = fresh(code, "nested_coroutine_objects"@);
                    let code = emit(
                        code,
                        makes_array(nested_bytes, Type::I8, i32_value(small_number(size))),
                    );
                    let code = emit(
                        code,
                        makes_array(
                            nested_objects,
                            object_class(),
                            i32_value(small_number(at_least_one(size))),
                        ),
                    );
                    let code = copied_storage(
                        storage,
                        base_offset,
                        storage_at_start(nested_bytes, nested_objects),
                        0,
                        size,
                        code,
                    );
                    let (code, decoded) = fresh(code, "nested_coroutine_value"@);
                    let code = emit(
                        code,
                        calls_static(
                            decoded,
                            codec,
                            "decode"@,
                            static_method(params1("bytes"@, byte_array()), lowered(ty)),
                            args1(variable(nested_bytes, byte_array())),
                        ),
                    );
                    (code, defs, Ok(variable(decoded, lowered(ty))))
                },
            }
        },
        TypeKind::Adt(adt) => {
            let defs = whole_defined(ty, adt, defs);
            if is_pointer(lowered(ty)) {
                loaded_pointer(ty, storage, base_offset, code, defs)
            } else {
                loaded_adt(ty, adt, size, storage, base_offset, code, defs)
            }
        },
        _ => {
            loaded_other(ty, size, storage, base_offset, code, defs)
        },
    }
}

/// Loads a value that is neither a number nor a pointer with metadata.
#[verifier::rlimit(80)]
pub fn emit_thin_from_union_bytes(
    ty: &RustType,
    size: usize,
    storage: &UnionStorage,
    base_offset: usize,
    code: &mut Code,
    defs: &mut Definitions,
) -> (r: Result<Operand, String>)
    requires
        valid(*ty), ty.size == Ok::<usize, String>(size),
    ensures
        (final(code).deep_view(), final(defs).deep_view(), outcome_model(r)) == loaded_thin(
            *ty,
            size,
            storage.deep_view(),
            base_offset,
            old(code).deep_view(),
            old(defs).deep_view(),
        ),
    decreases ty, 3nat,
{
    proof {
        reveal_with_fuel(valid, 3);
    }
    match &ty.kind {
        TypeKind::Pat(inner) => {
            emit_ty_from_union_bytes(inner, storage, base_offset, code, defs)
        },
        TypeKind::Ref { pointee, .. } => {
            match &pointee.kind {
                TypeKind::Array { element, length } => {
                    define_type(ty, defs);
                    let count = match concrete_length_of(length, pointee) {
                        Ok(value) => value,
                        Err(error) => return Err(error),
                    };
                    let pointer_ty = pointer_type(&RustType::jvm_type(element));
                    let slice_ty = slice_type(&RustType::jvm_type(element));
                    let address = emit_bits_from_union_bytes(
                        &Type::U64,
                        size,
                        storage,
                        base_offset,
                        code,
                    );
                    let pointer_dest = code.fresh("union_array_reference_pointer");
                    let pointer_codec = pointer_builtin_codec_operand(ty, defs);
                    let view_size = match layout_size_bytes(element) {
                        Ok(value) => value,
                        Err(error) => return Err(error),
                    };
                    let view_codec = pointer_view_codec_operand(element, defs);
                    code.push(
                        static_call(
                            pointer_dest.as_str(),
                            POINTER_CLASS,
                            "fromEncodedAddress",
                            &from_encoded_address_signature(&pointer_ty),
                            &make_args4(
                                &address,
                                &u64_operand(size_as_u64(view_size)),
                                &codec_operand(&view_codec),
                                &codec_operand(&pointer_codec),
                            ),
                        ),
                    );
                    let object_dest = code.fresh("union_array_reference_view");
                    code.push(
                        construct(
                            object_dest.as_str(),
                            SLICE_VIEW_CLASS,
                            &make_typed3(
                                &operand_var(pointer_dest.as_str(), &pointer_ty),
                                &object_type(),
                                &i32_operand(0),
                                &Type::I32,
                                &u64_operand(count),
                                &Type::U64,
                            ),
                        ),
                    );
                    let slice_dest = code.fresh("union_array_reference_slice");
                    code.push(
                        cast(
                            &operand_var(object_dest.as_str(), &class_type(SLICE_VIEW_CLASS)),
                            &slice_ty,
                            slice_dest.as_str(),
                        ),
                    );
                    Ok(operand_var(slice_dest.as_str(), &slice_ty))
                },
                _ => {
                    if is_pointer_type(&RustType::jvm_type(ty)) {
                        emit_direct_pointer_from_union_bytes(ty, storage, base_offset, code, defs)
                    } else {
                        emit_other_from_union_bytes(ty, size, storage, base_offset, code, defs)
                    }
                },
            }
        },
        TypeKind::RawPtr { pointee, .. } => {
            if is_pointer_type(&RustType::jvm_type(ty)) {
                emit_direct_pointer_from_union_bytes(ty, storage, base_offset, code, defs)
            } else {
                emit_other_from_union_bytes(ty, size, storage, base_offset, code, defs)
            }
        },
        TypeKind::Float(FloatKind::F128) => {
            let low = emit_bits_from_union_bytes(&Type::I64, 8, storage, base_offset, code);
            let high = emit_bits_from_union_bytes(
                &Type::I64,
                8,
                storage,
                add_offsets(base_offset, 8),
                code,
            );
            let dest = code.fresh("union_f128_value");
            code.push(
                construct(
                    dest.as_str(),
                    F128_CLASS,
                    &make_typed2(&high, &Type::I64, &low, &Type::I64),
                ),
            );
            Ok(operand_var(dest.as_str(), &class_type(F128_CLASS)))
        },
        TypeKind::Tuple { class_name, elements } => {
            if has_no_fields(elements) {
                Ok(unit_operand())
            } else {
                define_fields(elements, defs);
                let slots = plan_slots(SlotNames::Elements, class_name.as_str(), elements, defs);
                emit_aggregate_from_union_bytes(
                    elements,
                    &slots,
                    class_name.as_str(),
                    storage,
                    base_offset,
                    code,
                    defs,
                )
            }
        },
        TypeKind::Closure { class_name, captures, .. } => {
            define_closure_parts(class_name.as_str(), captures, defs);
            let slots = plan_slots(SlotNames::Captures, class_name.as_str(), captures, defs);
            emit_aggregate_from_union_bytes(
                captures,
                &slots,
                class_name.as_str(),
                storage,
                base_offset,
                code,
                defs,
            )
        },
        TypeKind::Array { element, length } => {
            let count = match concrete_length_of(length, ty) {
                Ok(value) => value,
                Err(error) => return Err(error),
            };
            let element_size = match layout_size_bytes(element) {
                Ok(value) => value,
                Err(error) => return Err(error),
            };
            define_type(element, defs);
            let array_ty = array_type(&RustType::jvm_type(element));
            let array_dest = code.fresh("union_array_value");
            code.push(
                array_new(
                    array_dest.as_str(),
                    &RustType::jvm_type(element),
                    &i32_operand(length_number_of(count)),
                ),
            );
            let offset = UnionStorage::byte_index(storage, base_offset, code);
            let codec = pointer_view_codec_operand(element, defs);
            code.push(
                static_run(
                    POINTER_CLASS,
                    "decodeArrayMemory",
                    &static_signature(
                        &make_params5(
                            "bytes",
                            &byte_array_type(),
                            "offset",
                            &Type::I32,
                            "array",
                            &object_type(),
                            "element_size",
                            &Type::I32,
                            "codec",
                            &java_string(),
                        ),
                        &Type::Void,
                    ),
                    &make_args5(
                        &operand_var(storage.bytes_var.as_str(), &byte_array_type()),
                        &offset,
                        &operand_var(array_dest.as_str(), &array_ty),
                        &i32_operand(small_number_of(element_size)),
                        &codec_operand(&codec),
                    ),
                ),
            );
            Ok(operand_var(array_dest.as_str(), &array_ty))
        },
        TypeKind::Coroutine(coroutine) => {
            let codec = match ensure_coroutine_codec(ty, coroutine, defs) {
                Ok(value) => value,
                Err(error) => return Err(error),
            };
            let nested_bytes = code.fresh("nested_coroutine_bytes");
            let nested_objects = code.fresh("nested_coroutine_objects");
            code.push(
                array_new(nested_bytes.as_str(), &Type::I8, &i32_operand(small_number_of(size))),
            );
            code.push(
                array_new(
                    nested_objects.as_str(),
                    &object_type(),
                    &i32_operand(small_number_of(one_or_more(size))),
                ),
            );
            emit_union_storage_copy(
                storage,
                base_offset,
                &UnionStorage::at_start(nested_bytes.as_str(), nested_objects.as_str()),
                0,
                size,
                code,
            );
            let decoded = code.fresh("nested_coroutine_value");
            code.push(
                static_call(
                    decoded.as_str(),
                    codec.as_str(),
                    "decode",
                    &static_signature(
                        &make_params1("bytes", &byte_array_type()),
                        &RustType::jvm_type(ty),
                    ),
                    &make_args1(&operand_var(nested_bytes.as_str(), &byte_array_type())),
                ),
            );
            Ok(operand_var(decoded.as_str(), &RustType::jvm_type(ty)))
        },
        TypeKind::Adt(adt) => {
            define_whole(ty, adt, defs);
            if is_pointer_type(&RustType::jvm_type(ty)) {
                emit_direct_pointer_from_union_bytes(ty, storage, base_offset, code, defs)
            } else {
                emit_adt_from_union_bytes(ty, adt, size, storage, base_offset, code, defs)
            }
        },
        _ => {
            emit_other_from_union_bytes(ty, size, storage, base_offset, code, defs)
        },
    }
}

/// The value of a named type in storage.
pub open spec fn loaded_adt(
    ty: RustType,
    adt: Adt,
    size: usize,
    storage: UnionStorageModel,
    base_offset: usize,
    code: CodeModel,
    defs: DefinitionsModel,
) -> (CodeModel, DefinitionsModel, Result<OperandModel, Text>)
    decreases adt, 9nat, 0nat,
{
    match adt.shape {
        Shape::Enum => {
            match class_or(lowered(ty), ("enum "@ + ty.text@ + " did not map to a JVM class"@)) {
                Err(error) => (code, defs, Err(error)),
                Ok(enum_class) => {
                    let (defs, outcome) = enum_codec(ty, adt, enum_class, defs);
                    match outcome {
                        Err(error) => (code, defs, Err(error)),
                        Ok(_) => {
                            let (code, enum_dest) = fresh(code, "union_enum_value"@);
                            let (code, offset) = byte_position(storage, base_offset, code);
                            let code = emit(
                                code,
                                calls_static(
                                    enum_dest,
                                    enum_class,
                                    ENUM_READ_UNION_STORAGE_METHOD@,
                                    enum_reader(enum_class),
                                    args3(
                                        variable(storage.bytes_var, byte_array()),
                                        variable(storage.objects_var, object_array()),
                                        offset,
                                    ),
                                ),
                            );
                            (code, defs, Ok(variable(enum_dest, lowered(ty))))
                        },
                    }
                },
            }
        },
        Shape::Union => {
            match class_or(lowered(ty), ("union "@ + ty.text@ + " did not map to a JVM class"@)) {
                Err(error) => (code, defs, Err(error)),
                Ok(union_class) => {
                    let (code, bytes_dest) = fresh(code, "nested_union_bytes"@);
                    let (code, objects_dest) = fresh(code, "nested_union_objects"@);
                    let code = emit(
                        code,
                        makes_array(bytes_dest, Type::I8, i32_value(small_number(size))),
                    );
                    let code = emit(code, makes_objects(objects_dest, objects_size(ty, size)));
                    let code = copied_storage(
                        storage,
                        base_offset,
                        storage_at_start(bytes_dest, objects_dest),
                        0,
                        size,
                        code,
                    );
                    let (code, union_dest) = fresh(code, "nested_union_value"@);
                    let code = emit(
                        code,
                        makes_object(
                            union_dest,
                            union_class,
                            typed2(
                                variable(bytes_dest, byte_array()),
                                byte_array(),
                                variable(objects_dest, object_array()),
                                object_array(),
                            ),
                        ),
                    );
                    (code, defs, Ok(variable(union_dest, lowered(ty))))
                },
            }
        },
        Shape::Struct => {
            if is_laid_out_struct(adt) {
                let variant = (adt.variants@[0]);
                let defs = struct_parts_defined(adt, defs);
                let slots = slots_of_fields(
                    SlotNames::Declared,
                    adt.class_name@,
                    variant.fields@,
                    defs,
                );
                loaded_aggregate(
                    variant.fields@,
                    slots,
                    adt.class_name@,
                    storage,
                    base_offset,
                    code,
                    defs,
                )
            } else if is_reference(lowered(ty)) {
                let (code, value) = loaded_object(lowered(ty), storage, base_offset, code);
                (code, defs, Ok(value))
            } else {
                (code, defs, Err(("cannot load unresolved struct "@ + ty.text@ + " from a union"@)))
            }
        },
    }
}

/// Loads a value of a named type.
pub fn emit_adt_from_union_bytes(
    ty: &RustType,
    adt: &Adt,
    size: usize,
    storage: &UnionStorage,
    base_offset: usize,
    code: &mut Code,
    defs: &mut Definitions,
) -> (r: Result<Operand, String>)
    requires
        adt_valid(*adt), adt.shape is Union ==> size <= i32::MAX,
    ensures
        (final(code).deep_view(), final(defs).deep_view(), outcome_model(r)) == loaded_adt(
            *ty,
            *adt,
            size,
            storage.deep_view(),
            base_offset,
            old(code).deep_view(),
            old(defs).deep_view(),
        ),
    decreases adt, 9nat,
{
    match &adt.shape {
        Shape::Enum => {
            let enum_class = match class_name_or(
                &RustType::jvm_type(ty),
                cat3("enum ", ty.text.as_str(), " did not map to a JVM class").as_str(),
            ) {
                Ok(value) => value,
                Err(error) => return Err(error),
            };
            let _done = match ensure_enum_union_codec(ty, adt, enum_class.as_str(), defs) {
                Ok(value) => value,
                Err(error) => return Err(error),
            };
            let enum_dest = code.fresh("union_enum_value");
            let offset = UnionStorage::byte_index(storage, base_offset, code);
            code.push(
                static_call(
                    enum_dest.as_str(),
                    enum_class.as_str(),
                    ENUM_READ_UNION_STORAGE_METHOD,
                    &enum_union_read_signature(enum_class.as_str()),
                    &make_args3(
                        &operand_var(storage.bytes_var.as_str(), &byte_array_type()),
                        &operand_var(storage.objects_var.as_str(), &object_array_type()),
                        &offset,
                    ),
                ),
            );
            Ok(operand_var(enum_dest.as_str(), &RustType::jvm_type(ty)))
        },
        Shape::Union => {
            let union_class = match class_name_or(
                &RustType::jvm_type(ty),
                cat3("union ", ty.text.as_str(), " did not map to a JVM class").as_str(),
            ) {
                Ok(value) => value,
                Err(error) => return Err(error),
            };
            let bytes_dest = code.fresh("nested_union_bytes");
            let objects_dest = code.fresh("nested_union_objects");
            code.push(
                array_new(bytes_dest.as_str(), &Type::I8, &i32_operand(small_number_of(size))),
            );
            code.push(
                allocate_union_object_storage(
                    objects_dest.as_str(),
                    union_object_storage_size(ty, size),
                ),
            );
            emit_union_storage_copy(
                storage,
                base_offset,
                &UnionStorage::at_start(bytes_dest.as_str(), objects_dest.as_str()),
                0,
                size,
                code,
            );
            let union_dest = code.fresh("nested_union_value");
            code.push(
                construct(
                    union_dest.as_str(),
                    union_class.as_str(),
                    &make_typed2(
                        &operand_var(bytes_dest.as_str(), &byte_array_type()),
                        &byte_array_type(),
                        &operand_var(objects_dest.as_str(), &object_array_type()),
                        &object_array_type(),
                    ),
                ),
            );
            Ok(operand_var(union_dest.as_str(), &RustType::jvm_type(ty)))
        },
        Shape::Struct => {
            if is_known_struct(adt) {
                let variant = &first_variant_of(adt);
                define_struct_parts(adt, defs);
                let slots = plan_slots(
                    SlotNames::Declared,
                    adt.class_name.as_str(),
                    &variant.fields,
                    defs,
                );
                emit_aggregate_from_union_bytes(
                    &variant.fields,
                    &slots,
                    adt.class_name.as_str(),
                    storage,
                    base_offset,
                    code,
                    defs,
                )
            } else if Type::is_jvm_reference_type(&RustType::jvm_type(ty)) {
                let value = emit_object_from_union_storage(
                    &RustType::jvm_type(ty),
                    storage,
                    base_offset,
                    code,
                );
                Ok(value)
            } else {
                Err(cat3("cannot load unresolved struct ", ty.text.as_str(), " from a union"))
            }
        },
    }
}

/// The value in storage that only the runtime can address.
pub open spec fn loaded_other(
    ty: RustType,
    size: usize,
    storage: UnionStorageModel,
    base_offset: usize,
    code: CodeModel,
    defs: DefinitionsModel,
) -> (CodeModel, DefinitionsModel, Result<OperandModel, Text>)
    decreases ty, 2nat, 0nat,
{
    let defs = type_defined(ty, defs);
    if is_reference(lowered(ty)) {
        let (code, value) = loaded_managed_object(lowered(ty), size, storage, base_offset, code);
        (code, defs, Ok(value))
    } else {
        (
            code,
            defs,
            Err(
                ("unsupported union field type "@ + ty.text@ + ": JVM representation "@ + plain_type_name(lowered(ty)) + " is neither byte-addressable nor a reference"@),
            ),
        )
    }
}

/// Loads a value that only the runtime can address.
pub fn emit_other_from_union_bytes(
    ty: &RustType,
    size: usize,
    storage: &UnionStorage,
    base_offset: usize,
    code: &mut Code,
    defs: &mut Definitions,
) -> (r: Result<Operand, String>)
    requires
        valid(*ty),
    ensures
        (final(code).deep_view(), final(defs).deep_view(), outcome_model(r)) == loaded_other(
            *ty,
            size,
            storage.deep_view(),
            base_offset,
            old(code).deep_view(),
            old(defs).deep_view(),
        ),
    decreases ty, 2nat,
{
    define_type(ty, defs);
    if Type::is_jvm_reference_type(&RustType::jvm_type(ty)) {
        let value = emit_managed_object_from_union_bytes(
            &RustType::jvm_type(ty),
            size,
            storage,
            base_offset,
            code,
        );
        Ok(value)
    } else {
        Err(
            cat5(
                "unsupported union field type ",
                ty.text.as_str(),
                ": JVM representation ",
                type_text(&RustType::jvm_type(ty)).as_str(),
                " is neither byte-addressable nor a reference",
            ),
        )
    }
}

} // verus!
