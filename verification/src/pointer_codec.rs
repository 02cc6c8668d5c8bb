//! Codecs through which pointers look at the bytes of values: their names and their classes.
use crate::code::{
    Code, CodeModel, Definitions, DefinitionsModel, append_value, args2, args3, args4, array_new,
    byte_array, byte_array_type, calls_static, class, class_type, construct, decimal_usize, emit,
    empty_code, empty_methods, field_read, fresh, function_put, i32_operand, i32_value,
    instance_method, instance_signature, java_string, make_args2, make_args3, make_args4,
    make_function, make_params0, make_params1, make_params2, make_params3, make_params4,
    make_params5, make_typed0, makes_array, makes_object, no_methods, object_array,
    object_array_type, object_class, object_type, operand_var, outcome_model, params0, params1,
    params2, params3, params4, params5, plain_function, pointer_to, pointer_type, put_function,
    reads_field, return_nothing, return_value, returns_nothing, returns_value, runs_static,
    runs_virtual, simple_body, single_block, static_call, static_method, static_run,
    static_signature, string_class, typed0, u64_operand, u64_value, unit_outcome, value_appended,
    variable, virtual_run,
};
use crate::codec::{
    ARRAY_REFERENCE_VIEW_CODEC_PREFIX, MANAGED_OBJECT_POINTER_VIEW_CODEC, RAW_POINTER_VIEW_CODEC,
    SLICE_POINTER_VIEW_CODEC_PREFIX, STRUCT_TAIL_POINTER_VIEW_CODEC_PREFIX,
    TRAIT_POINTER_VIEW_CODEC_PREFIX, codec_operand, codec_text, codec_text_of, codec_value,
    copy_signature, default_operand_for_codec, default_value, first_variant_of, get_pointee,
    is_known_struct, is_laid_out_struct, jvm_size, jvm_size_or, no_text, part_path, part_path_of,
    pointee_is_inside, pointee_of, size_as_u64, some_text,
};
use crate::coroutine_codec::{coroutine_codec, ensure_coroutine_codec};
use crate::definitions::{
    add_methods, bare_class, class_has_method, define_name, has_method, has_no_methods,
    is_interface, is_interface_name, is_methodless, make_bare_class, methods_added,
    remove_definition,
};
use crate::descriptor::{
    OBJECT_CLASS, POINTER_CLASS, SLICE_VIEW_CLASS, UTF8_VIEW_CLASS, class_name_of, is_reference,
};
use crate::layout::{
    Slot, SlotModel, SlotNames, adt_valid, all_valid, exact_bytes, exact_bytes_supported,
    get_slot, has_several_slots, is_nested, is_split, needs_nested_memory_binding, plan_slots,
    slot_at, slots_of_fields, tail_is_inside, tail_is_valid, valid,
};
use crate::load::{emit_ty_from_union_bytes, loaded};
use crate::lowering::{
    aggregate_defined, closure_parts_defined, define_aggregate, define_closure_parts,
    define_fields, define_struct_parts, define_type, defined_fields, struct_parts_defined,
    type_defined,
};
use crate::name_map::NameMap;
use crate::oomir::{
    DataTypeMethod, DataTypeMethodModel, DataTypeModel, Operand, OperandModel, Text, Type,
    TypeModel, has_value, operand_type,
};
use crate::rust_type::{
    Field, FloatKind, IntKind, RustType, TypeKind, UintKind, is_dynamic, is_trait_object,
    layout_size_bytes, lowered, objects_size, size_of, struct_tail, tail_of,
    union_object_storage_size,
};
use crate::store::{emit_ty_to_union_bytes, stored};
use crate::text::{cat2, cat3, cat5, decimal, decimal_text};
use crate::union_storage::{
    UnionStorage, UnionStorageModel, add_offsets, allocate_union_object_storage, makes_objects,
    offset_sum, small_number, small_number_of, storage_at_start,
};
use vstd::prelude::*;
use vstd::string::*;

verus! {

/// The codec of pointers that carry metadata, which the runtime stores in two words: slices, string
/// slices, raw trait objects, and structs that end in one of these.
pub open spec fn fat_codec(
    ty: RustType,
    defs: DefinitionsModel,
) -> (DefinitionsModel, Option<Text>)
    decreases ty, 1nat, 0nat,
{
    match ty.kind {
        TypeKind::Ref { pointee, .. } => {
            match (*pointee).kind {
                TypeKind::Slice(element) => {
                    let (defs, codec) = slice_codec((*element), defs);
                    (defs, codec)
                },
                TypeKind::Str => {
                    (defs, (Some((SLICE_POINTER_VIEW_CODEC_PREFIX@ + UTF8_VIEW_CLASS@ + "\n1\n"@))))
                },
                TypeKind::Adt(_) => {
                    let (defs, codec) = tail_codec((*pointee), defs);
                    (defs, codec)
                },
                _ => {
                    (defs, None::<Text>)
                },
            }
        },
        TypeKind::RawPtr { pointee, .. } => {
            match (*pointee).kind {
                TypeKind::Slice(element) => {
                    let (defs, codec) = slice_codec((*element), defs);
                    (defs, codec)
                },
                TypeKind::Str => {
                    (defs, (Some((SLICE_POINTER_VIEW_CODEC_PREFIX@ + UTF8_VIEW_CLASS@ + "\n1\n"@))))
                },
                TypeKind::Dynamic(_) => {
                    (
                        defs,
                        (
                            Some(
                                (
                                    TRAIT_POINTER_VIEW_CODEC_PREFIX@ + codec_text(
                                        class_name_of(lowered((*pointee))),
                                    )
                                ),
                            )
                        ),
                    )
                },
                TypeKind::Adt(_) => {
                    let (defs, codec) = tail_codec((*pointee), defs);
                    (defs, codec)
                },
                _ => {
                    (defs, None::<Text>)
                },
            }
        },
        _ => {
            (defs, None::<Text>)
        },
    }
}

/// The codec of a pointer that carries metadata.
pub fn fat_pointer_codec_operand(ty: &RustType, defs: &mut Definitions) -> (r: Option<String>)
    requires
        valid(*ty),
    ensures
        (final(defs).deep_view(), r.deep_view()) == fat_codec(*ty, old(defs).deep_view()),
    decreases ty, 1nat,
{
    proof {
        reveal_with_fuel(valid, 3);
    }
    match &ty.kind {
        TypeKind::Ref { pointee, .. } => {
            match &pointee.kind {
                TypeKind::Slice(element) => {
                    let codec = slice_pointer_codec(element, defs);
                    codec
                },
                TypeKind::Str => {
                    some_text(
                        cat3(SLICE_POINTER_VIEW_CODEC_PREFIX, UTF8_VIEW_CLASS, "\n1\n").as_str(),
                    )
                },
                TypeKind::Adt(_) => {
                    let codec = struct_tail_codec(pointee, defs);
                    codec
                },
                _ => {
                    no_text()
                },
            }
        },
        TypeKind::RawPtr { pointee, .. } => {
            match &pointee.kind {
                TypeKind::Slice(element) => {
                    let codec = slice_pointer_codec(element, defs);
                    codec
                },
                TypeKind::Str => {
                    some_text(
                        cat3(SLICE_POINTER_VIEW_CODEC_PREFIX, UTF8_VIEW_CLASS, "\n1\n").as_str(),
                    )
                },
                TypeKind::Dynamic(_) => {
                    some_text(
                        cat2(
                            TRAIT_POINTER_VIEW_CODEC_PREFIX,
                            codec_text_of(
                                &Type::get_class_name(&RustType::jvm_type(pointee)),
                            ).as_str(),
                        ).as_str(),
                    )
                },
                TypeKind::Adt(_) => {
                    let codec = struct_tail_codec(pointee, defs);
                    codec
                },
                _ => {
                    no_text()
                },
            }
        },
        _ => {
            no_text()
        },
    }
}

/// The codec of pointers to slices of an element type.
pub open spec fn slice_codec(
    element: RustType,
    defs: DefinitionsModel,
) -> (DefinitionsModel, Option<Text>)
    decreases element, 9nat, 0nat,
{
    match (size_of(element)) {
        Err(_) => {
            (defs, None::<Text>)
        },
        Ok(element_size) => {
            let (defs, codec) = view_codec(element, defs);
            (
                defs,
                (
                    Some(
                        (
                            (SLICE_POINTER_VIEW_CODEC_PREFIX@ + SLICE_VIEW_CLASS@ + "\n"@ + (
                                decimal_text(element_size as nat)
                            ) + "\n"@) + codec_text(codec)
                        ),
                    )
                ),
            )
        },
    }
}

/// The codec of pointers to slices of an element type.
pub fn slice_pointer_codec(element: &RustType, defs: &mut Definitions) -> (r: Option<String>)
    requires
        valid(*element),
    ensures
        (final(defs).deep_view(), r.deep_view()) == slice_codec(*element, old(defs).deep_view()),
    decreases element, 9nat,
{
    match &size_result_of(element) {
        Err(_) => {
            no_text()
        },
        Ok(element_size) => {
            let codec = pointer_view_codec_operand(element, defs);
            some_text(
                cat2(
                    cat5(
                        SLICE_POINTER_VIEW_CODEC_PREFIX,
                        SLICE_VIEW_CLASS,
                        "\n",
                        decimal_usize(*element_size).as_str(),
                        "\n",
                    ).as_str(),
                    codec_text_of(&codec).as_str(),
                ).as_str(),
            )
        },
    }
}

/// The size of a type, or why there is none.
pub fn size_result_of(ty: &RustType) -> (r: Result<usize, String>)
    ensures
        (match r {
            Ok(size) => Ok(size),
            Err(reason) => Err(reason@),
        }) == size_of(*ty),
{
    layout_size_bytes(ty)
}

/// What a codec of pointers to a struct starts with.
pub open spec fn tail_codec(
    pointee: RustType,
    defs: DefinitionsModel,
) -> (DefinitionsModel, Option<Text>)
    decreases pointee, 9nat, 0nat,
{
    match class_name_of(lowered(pointee)) {
        None => {
            (defs, None::<Text>)
        },
        Some(target_class) => {
            match (size_of(pointee)) {
                Err(_) => {
                    (defs, None::<Text>)
                },
                Ok(prefix_size) => {
                    let start = (STRUCT_TAIL_POINTER_VIEW_CODEC_PREFIX@ + target_class + "\n"@ + (
                        decimal_text(prefix_size as nat)
                    ) + "\n"@);
                    let end = tail_of(pointee);
                    proof { tail_is_inside(pointee); }
                    match end.kind {
                        TypeKind::Dynamic(_) => {
                            let (defs, prefix_codec) = memory_codec(pointee, defs);
                            match prefix_codec {
                                Err(_) => {
                                    (defs, None::<Text>)
                                },
                                Ok(found) => {
                                    match found {
                                        None => {
                                            (defs, None::<Text>)
                                        },
                                        Some(codec) => {
                                            (
                                                defs,
                                                (
                                                    Some(
                                                        (start + "@trait:"@ + codec_text(
                                                            class_name_of(lowered(end)),
                                                        ) + "\n0\n"@ + codec),
                                                    )
                                                ),
                                            )
                                        },
                                    }
                                },
                            }
                        },
                        TypeKind::Slice(element) => {
                            match (size_of((*element))) {
                                Err(_) => {
                                    (defs, None::<Text>)
                                },
                                Ok(element_size) => {
                                    let (defs, codec) = view_codec((*element), defs);
                                    (
                                        defs,
                                        (
                                            Some(
                                                (
                                                    (start + SLICE_VIEW_CLASS@ + "\n"@ + (
                                                        decimal_text(element_size as nat)
                                                    ) + "\n"@) + codec_text(codec)
                                                ),
                                            )
                                        ),
                                    )
                                },
                            }
                        },
                        TypeKind::Str => {
                            (defs, (Some((start + UTF8_VIEW_CLASS@ + "\n1\n"@))))
                        },
                        _ => {
                            (defs, None::<Text>)
                        },
                    }
                },
            }
        },
    }
}

/// The codec of pointers to a struct with an unsized end.
pub fn struct_tail_codec(pointee: &RustType, defs: &mut Definitions) -> (r: Option<String>)
    requires
        valid(*pointee),
    ensures
        (final(defs).deep_view(), r.deep_view()) == tail_codec(*pointee, old(defs).deep_view()),
    decreases pointee, 9nat,
{
    match &Type::get_class_name(&RustType::jvm_type(pointee)) {
        None => {
            no_text()
        },
        Some(target_class) => {
            match &size_result_of(pointee) {
                Err(_) => {
                    no_text()
                },
                Ok(prefix_size) => {
                    let start = cat5(
                        STRUCT_TAIL_POINTER_VIEW_CODEC_PREFIX,
                        target_class.as_str(),
                        "\n",
                        decimal_usize(*prefix_size).as_str(),
                        "\n",
                    );
                    let end = &struct_tail(pointee);
                    proof { tail_is_inside(*pointee); }
                    proof {
                        tail_is_valid(*pointee);
                    }
                    match &end.kind {
                        TypeKind::Dynamic(_) => {
                            let prefix_codec = ensure_pointer_memory_codec(pointee, defs);
                            match prefix_codec {
                                Err(_) => {
                                    no_text()
                                },
                                Ok(found) => {
                                    match &found {
                                        None => {
                                            no_text()
                                        },
                                        Some(codec) => {
                                            some_text(
                                                cat5(
                                                    start.as_str(),
                                                    "@trait:",
                                                    codec_text_of(
                                                        &Type::get_class_name(
                                                            &RustType::jvm_type(end),
                                                        ),
                                                    ).as_str(),
                                                    "\n0\n",
                                                    codec.as_str(),
                                                ).as_str(),
                                            )
                                        },
                                    }
                                },
                            }
                        },
                        TypeKind::Slice(element) => {
                            match &size_result_of(element) {
                                Err(_) => {
                                    no_text()
                                },
                                Ok(element_size) => {
                                    let codec = pointer_view_codec_operand(element, defs);
                                    some_text(
                                        cat2(
                                            cat5(
                                                start.as_str(),
                                                SLICE_VIEW_CLASS,
                                                "\n",
                                                decimal_usize(*element_size).as_str(),
                                                "\n",
                                            ).as_str(),
                                            codec_text_of(&codec).as_str(),
                                        ).as_str(),
                                    )
                                },
                            }
                        },
                        TypeKind::Str => {
                            some_text(cat3(start.as_str(), UTF8_VIEW_CLASS, "\n1\n").as_str())
                        },
                        _ => {
                            no_text()
                        },
                    }
                },
            }
        },
    }
}

/// The codec of pointers to a type whose size is known.
pub open spec fn sized_codec(
    pointee: RustType,
    defs: DefinitionsModel,
) -> (DefinitionsModel, Option<Text>)
    decreases pointee, 9nat, 0nat,
{
    match (size_of(pointee)) {
        Err(_) => {
            (defs, None::<Text>)
        },
        Ok(pointee_size) => {
            let (defs, codec) = view_codec(pointee, defs);
            (
                defs,
                (
                    Some(
                        (
                            ((RAW_POINTER_VIEW_CODEC@ + "\n"@) + (
                                decimal_text(pointee_size as nat)
                            ) + "\n"@ + pointee_class(pointee) + "\n"@) + codec_text(codec)
                        ),
                    )
                ),
            )
        },
    }
}

/// The codec of pointers to a type whose size is known.
pub fn sized_pointer_codec(pointee: &RustType, defs: &mut Definitions) -> (r: Option<String>)
    requires
        valid(*pointee),
    ensures
        (final(defs).deep_view(), r.deep_view()) == sized_codec(*pointee, old(defs).deep_view()),
    decreases pointee, 9nat,
{
    match &size_result_of(pointee) {
        Err(_) => {
            no_text()
        },
        Ok(pointee_size) => {
            let codec = pointer_view_codec_operand(pointee, defs);
            some_text(
                cat2(
                    cat5(
                        cat2(RAW_POINTER_VIEW_CODEC, "\n").as_str(),
                        decimal_usize(*pointee_size).as_str(),
                        "\n",
                        pointee_class_of(pointee).as_str(),
                        "\n",
                    ).as_str(),
                    codec_text_of(&codec).as_str(),
                ).as_str(),
            )
        },
    }
}

/// The class of an aggregate, as codecs of pointers to it name it.
pub open spec fn pointee_class(ty: RustType) -> Text {
    match ty.kind {
        TypeKind::Tuple { .. } => codec_text(class_name_of(lowered(ty))),
        TypeKind::Adt(_) => codec_text(class_name_of(lowered(ty))),
        TypeKind::Closure { .. } => codec_text(class_name_of(lowered(ty))),
        _ => ""@,
    }
}

/// The class of an aggregate, as codecs of pointers to it name it.
pub fn pointee_class_of(ty: &RustType) -> (r: String)
    ensures
        r@ == pointee_class(*ty),
{
    match &ty.kind {
        TypeKind::Tuple { .. } | TypeKind::Adt(_) | TypeKind::Closure { .. } => codec_text_of(
            &ty.jvm_type().get_class_name(),
        ),
        _ => "".to_string(),
    }
}

/// The codec of pointers and wide numbers that the runtime knows.
pub open spec fn builtin_codec(
    ty: RustType,
    defs: DefinitionsModel,
) -> (DefinitionsModel, Option<Text>)
    decreases ty, 1nat, 0nat,
{
    match ty.kind {
        TypeKind::Ref { pointee, .. } => {
            match (*pointee).kind {
                TypeKind::Array { element, length } => {
                    match length {
                        None => {
                            (defs, None::<Text>)
                        },
                        Some(count) => {
                            match (size_of((*element))) {
                                Err(_) => {
                                    (defs, None::<Text>)
                                },
                                Ok(element_size) => {
                                    let (defs, codec) = view_codec((*element), defs);
                                    (
                                        defs,
                                        (
                                            Some(
                                                (
                                                    (ARRAY_REFERENCE_VIEW_CODEC_PREFIX@ + (decimal_text(count as nat)) + "\n"@ + (decimal_text(element_size as nat)) + "\n"@) + codec_text(codec)
                                                ),
                                            )
                                        ),
                                    )
                                },
                            }
                        },
                    }
                },
                _ => {
                    if (*pointee).is_sized {
                        let (defs, codec) = sized_codec((*pointee), defs);
                        (defs, codec)
                    } else {
                        (defs, None::<Text>)
                    }
                },
            }
        },
        TypeKind::RawPtr { pointee, .. } => {
            if (*pointee).is_sized {
                let (defs, codec) = sized_codec((*pointee), defs);
                (defs, codec)
            } else {
                (defs, None::<Text>)
            }
        },
        TypeKind::Adt(_) => {
            match pointee_of(ty) {
                None => {
                    (defs, None::<Text>)
                },
                Some(pointee) => {
                    if pointee.is_sized {
                        proof { pointee_is_inside(ty); }
                        let (defs, codec) = sized_codec(pointee, defs);
                        (defs, codec)
                    } else {
                        (defs, None::<Text>)
                    }
                },
            }
        },
        TypeKind::Int(IntKind::I128) => {
            (defs, (Some("@signed-big-integer"@)))
        },
        TypeKind::Uint(UintKind::U128) => {
            (defs, (Some("@unsigned-big-integer"@)))
        },
        TypeKind::Float(FloatKind::F128) => {
            (defs, (Some("@f128"@)))
        },
        _ => {
            (defs, None::<Text>)
        },
    }
}

/// The codec of a pointer or a wide number that the runtime knows.
pub fn pointer_builtin_codec_operand(ty: &RustType, defs: &mut Definitions) -> (r: Option<String>)
    requires
        valid(*ty),
    ensures
        (final(defs).deep_view(), r.deep_view()) == builtin_codec(*ty, old(defs).deep_view()),
    decreases ty, 1nat,
{
    proof {
        reveal_with_fuel(valid, 3);
    }
    match &ty.kind {
        TypeKind::Ref { pointee, .. } => {
            match &pointee.kind {
                TypeKind::Array { element, length } => {
                    match length {
                        None => {
                            no_text()
                        },
                        Some(count) => {
                            match &size_result_of(element) {
                                Err(_) => {
                                    no_text()
                                },
                                Ok(element_size) => {
                                    let codec = pointer_view_codec_operand(element, defs);
                                    some_text(
                                        cat2(
                                            cat5(
                                                ARRAY_REFERENCE_VIEW_CODEC_PREFIX,
                                                decimal_u64(*count).as_str(),
                                                "\n",
                                                decimal_usize(*element_size).as_str(),
                                                "\n",
                                            ).as_str(),
                                            codec_text_of(&codec).as_str(),
                                        ).as_str(),
                                    )
                                },
                            }
                        },
                    }
                },
                _ => {
                    if pointee.is_sized {
                        let codec = sized_pointer_codec(pointee, defs);
                        codec
                    } else {
                        no_text()
                    }
                },
            }
        },
        TypeKind::RawPtr { pointee, .. } => {
            if pointee.is_sized {
                let codec = sized_pointer_codec(pointee, defs);
                codec
            } else {
                no_text()
            }
        },
        TypeKind::Adt(_) => {
            match &get_pointee(ty) {
                None => {
                    no_text()
                },
                Some(pointee) => {
                    if pointee.is_sized {
                        proof { pointee_is_inside(*ty); }
                        let codec = sized_pointer_codec(pointee, defs);
                        codec
                    } else {
                        no_text()
                    }
                },
            }
        },
        TypeKind::Int(IntKind::I128) => {
            some_text("@signed-big-integer")
        },
        TypeKind::Uint(UintKind::U128) => {
            some_text("@unsigned-big-integer")
        },
        TypeKind::Float(FloatKind::F128) => {
            some_text("@f128")
        },
        _ => {
            no_text()
        },
    }
}

/// The digits of a number of 64 bits.
pub fn decimal_u64(n: u64) -> (r: String)
    ensures
        r@ == decimal_text(n as nat),
{
    decimal(n as u128)
}

/// The codec through which pointers look at values of a type inside other values.
pub open spec fn view_codec(
    ty: RustType,
    defs: DefinitionsModel,
) -> (DefinitionsModel, Option<Text>)
    decreases ty, 8nat, 0nat,
{
    let (defs, fat) = fat_codec(ty, defs);
    match fat {
        Some(codec) => {
            (defs, (Some(codec)))
        },
        None => {
            let (defs, builtin) = builtin_codec(ty, defs);
            match builtin {
                Some(codec) => {
                    (defs, (Some(codec)))
                },
                None => {
                    let (defs, made) = memory_codec(ty, defs);
                    match made {
                        Ok(found) => {
                            match found {
                                Some(codec) => {
                                    (defs, (Some(codec)))
                                },
                                None => {
                                    (defs, fallback_codec(ty))
                                },
                            }
                        },
                        Err(_) => {
                            (defs, fallback_codec(ty))
                        },
                    }
                },
            }
        },
    }
}

/// The codec through which pointers look at values of a type inside other values.
pub fn pointer_view_codec_operand(ty: &RustType, defs: &mut Definitions) -> (r: Option<String>)
    requires
        valid(*ty),
    ensures
        (final(defs).deep_view(), r.deep_view()) == view_codec(*ty, old(defs).deep_view()),
    decreases ty, 8nat,
{
    let fat = fat_pointer_codec_operand(ty, defs);
    match &fat {
        Some(codec) => {
            some_text(codec.as_str())
        },
        None => {
            let builtin = pointer_builtin_codec_operand(ty, defs);
            match &builtin {
                Some(codec) => {
                    some_text(codec.as_str())
                },
                None => {
                    let made = ensure_pointer_memory_codec(ty, defs);
                    match made {
                        Ok(found) => {
                            match &found {
                                Some(codec) => {
                                    some_text(codec.as_str())
                                },
                                None => {
                                    fallback_codec_of(ty)
                                },
                            }
                        },
                        Err(_) => {
                            fallback_codec_of(ty)
                        },
                    }
                },
            }
        },
    }
}

/// The codec of a type without exact bytes: aggregates are only seen whole, and other objects by
/// their addresses.
pub open spec fn fallback_codec(ty: RustType) -> Option<Text> {
    match ty.kind {
        TypeKind::Tuple { .. } => None,
        TypeKind::Array { .. } => None,
        TypeKind::Adt(_) => None,
        _ => if is_reference(lowered(ty)) {
            Some(MANAGED_OBJECT_POINTER_VIEW_CODEC@)
        } else {
            None
        },
    }
}

/// The codec of a type without exact bytes.
pub fn fallback_codec_of(ty: &RustType) -> (r: Option<String>)
    ensures
        r.deep_view() == fallback_codec(*ty),
{
    match &ty.kind {
        TypeKind::Tuple { .. } | TypeKind::Array { .. } | TypeKind::Adt(_) => None,
        _ => if ty.jvm_type().is_jvm_reference_type() {
            Some(MANAGED_OBJECT_POINTER_VIEW_CODEC.to_string())
        } else {
            None
        },
    }
}

/// Whether a codec class is complete, or is being made by an outer call.
pub open spec fn codec_ready(defs: DefinitionsModel, name: Text) -> bool {
    (class_has_method(defs, name, "encode"@) && class_has_method(defs, name, "decode"@)
        && class_has_method(defs, name, "bind"@)) || has_no_methods(defs, name)
}

/// Whether a codec class is complete, or is being made by an outer call.
pub fn is_codec_ready(defs: &Definitions, name: &str) -> (r: bool)
    ensures
        r == codec_ready(defs.deep_view(), name@),
{
    (has_method(defs, name, "encode") && has_method(defs, name, "decode") && has_method(
        defs,
        name,
        "bind",
    )) || is_methodless(defs, name)
}

/// The class that stands for a codec while its methods are made.
pub open spec fn codec_placeholder() -> DataTypeModel {
    bare_class(false, Some(OBJECT_CLASS@))
}

/// Definitions with a codec class that has no methods yet.
pub open spec fn codec_started(name: Text, defs: DefinitionsModel) -> DefinitionsModel {
    defs.insert(name, codec_placeholder())
}

/// Definitions with a codec class that has no methods yet.
pub fn start_codec(name: &str, defs: &mut Definitions)
    ensures
        final(defs).deep_view() == codec_started(name@, old(defs).deep_view()),
{
    let placeholder = make_bare_class(false, Some(OBJECT_CLASS.to_string()));
    define_name(defs, name, placeholder);
}

/// Definitions without a name.
pub open spec fn undefined(name: Text, defs: DefinitionsModel) -> DefinitionsModel {
    defs.remove(name)
}

/// Definitions without a name.
pub fn undefine(name: &str, defs: &mut Definitions)
    ensures
        final(defs).deep_view() == undefined(name@, old(defs).deep_view()),
{
    remove_definition(defs, name);
}

/// Definitions in which a class has more methods.
pub open spec fn all_added(
    name: Text,
    methods: Map<Text, DataTypeMethodModel>,
    defs: DefinitionsModel,
) -> DefinitionsModel {
    methods_added(defs, name, methods)
}

/// Gives a class more methods.
pub fn add_all(name: &str, methods: NameMap<DataTypeMethod>, defs: &mut Definitions)
    ensures
        final(defs).deep_view() == all_added(name@, methods.deep_view(), old(defs).deep_view()),
{
    add_methods(defs, name, methods);
}

/// Tells a pointer where the nested parts of the value behind it stand, from one part on.
pub open spec fn memory_bindings(
    fields: Seq<Field>,
    slots: Seq<Option<SlotModel>>,
    class_name: Text,
    pointer: OperandModel,
    source: OperandModel,
    from: nat,
    code: CodeModel,
    defs: DefinitionsModel,
) -> (CodeModel, DefinitionsModel, Result<(), Text>)
    decreases fields, 0nat, fields.len() - from,
{
    if from >= fields.len() {
        (code, defs, Ok(()))
    } else {
        let item = fields[from as int];
        match slot_at(slots, (from as usize)) {
            None => {
                memory_bindings(fields, slots, class_name, pointer, source, from + 1, code, defs)
            },
            Some(slot) => {
                if !is_nested(item.ty) || !is_reference(slot.ty) {
                    memory_bindings(
                        fields,
                        slots,
                        class_name,
                        pointer,
                        source,
                        from + 1,
                        code,
                        defs,
                    )
                } else {
                    let (code, defs, outcome) = memory_binding(
                        item.ty,
                        slot,
                        item.offset,
                        class_name,
                        pointer,
                        source,
                        code,
                        defs,
                    );
                    match outcome {
                        Err(error) => (code, defs, Err(error)),
                        Ok(_) => {
                            memory_bindings(
                                fields,
                                slots,
                                class_name,
                                pointer,
                                source,
                                from + 1,
                                code,
                                defs,
                            )
                        },
                    }
                }
            },
        }
    }
}

/// Tells a pointer where the nested parts of the value behind it stand.
pub fn emit_aggregate_memory_bindings(
    fields: &Vec<Field>,
    slots: &Vec<Option<Slot>>,
    class_name: &str,
    pointer: &Operand,
    source: &Operand,
    code: &mut Code,
    defs: &mut Definitions,
) -> (r: Result<(), String>)
    requires
        all_valid(fields@),
    ensures
        (final(code).deep_view(), final(defs).deep_view(), unit_outcome(r)) == memory_bindings(
            fields@,
            slots.deep_view(),
            class_name@,
            pointer.deep_view(),
            source.deep_view(),
            0,
            old(code).deep_view(),
            old(defs).deep_view(),
        ),
    decreases fields@, 0nat,
{
    let ghost start = memory_bindings(
            fields@,
            slots.deep_view(),
            class_name@,
            pointer.deep_view(),
            source.deep_view(),
            0,
            code.deep_view(),
            defs.deep_view(),
        );
    for i in 0..fields.len()
        invariant
            all_valid(fields@),
            memory_bindings(
                fields@,
                slots.deep_view(),
                class_name@,
                pointer.deep_view(),
                source.deep_view(),
                i as nat,
                code.deep_view(),
                defs.deep_view(),
            ) == start,
            start == memory_bindings(
                fields@,
                slots.deep_view(),
                class_name@,
                pointer.deep_view(),
                source.deep_view(),
                0,
                old(code).deep_view(),
                old(defs).deep_view(),
            ),
    {
        let item = &fields[i];
        match &get_slot(slots, i) {
            None => {

            },
            Some(slot) => {
                if !needs_nested_memory_binding(&item.ty)
                    || !Type::is_jvm_reference_type(&slot.ty) {

                } else {
                    let _done = match emit_memory_binding(
                        &item.ty,
                        slot,
                        item.offset,
                        class_name,
                        pointer,
                        source,
                        code,
                        defs,
                    ) {
                        Ok(value) => value,
                        Err(error) => return Err(error),
                    };

                }
            },
        }
    }
    Ok(())
}

/// Tells a pointer where one part of the value behind it stands.
pub open spec fn memory_binding(
    ty: RustType,
    slot: SlotModel,
    offset: usize,
    class_name: Text,
    pointer: OperandModel,
    source: OperandModel,
    code: CodeModel,
    defs: DefinitionsModel,
) -> (CodeModel, DefinitionsModel, Result<(), Text>)
    decreases ty, 9nat, 0nat,
{
    let (code, field_dest) = fresh(code, "memory_view_field"@);
    let code = emit(code, reads_field(field_dest, source, slot.name, slot.ty, class_name));
    match size_of(ty) {
        Err(error) => (code, defs, Err(error)),
        Ok(size) => {
            let (defs, codec) = view_codec(ty, defs);
            let code = emit(
                code,
                runs_virtual(
                    POINTER_CLASS@,
                    "bindNestedMemoryView"@,
                    instance_method(
                        params5(
                            "self"@,
                            operand_type(pointer),
                            "value"@,
                            object_class(),
                            "relative_offset"@,
                            Type::U64,
                            "size"@,
                            Type::U64,
                            "codec"@,
                            string_class(),
                        ),
                        Type::Void,
                    ),
                    args4(
                        variable(field_dest, slot.ty),
                        u64_value(((offset as u64))),
                        u64_value(((size as u64))),
                        codec_value(codec),
                    ),
                    pointer,
                ),
            );
            (code, defs, Ok(()))
        },
    }
}

/// Tells a pointer where one part of the value behind it stands.
pub fn emit_memory_binding(
    ty: &RustType,
    slot: &Slot,
    offset: usize,
    class_name: &str,
    pointer: &Operand,
    source: &Operand,
    code: &mut Code,
    defs: &mut Definitions,
) -> (r: Result<(), String>)
    requires
        valid(*ty),
    ensures
        (final(code).deep_view(), final(defs).deep_view(), unit_outcome(r)) == memory_binding(
            *ty,
            slot.deep_view(),
            offset,
            class_name@,
            pointer.deep_view(),
            source.deep_view(),
            old(code).deep_view(),
            old(defs).deep_view(),
        ),
    decreases ty, 9nat,
{
    let field_dest = code.fresh("memory_view_field");
    code.push(field_read(field_dest.as_str(), source, slot.name.as_str(), &slot.ty, class_name));
    let size = match layout_size_bytes(ty) {
        Ok(value) => value,
        Err(error) => return Err(error),
    };
    let codec = pointer_view_codec_operand(ty, defs);
    code.push(
        virtual_run(
            POINTER_CLASS,
            "bindNestedMemoryView",
            &instance_signature(
                &make_params5(
                    "self",
                    &Operand::get_type(pointer),
                    "value",
                    &object_type(),
                    "relative_offset",
                    &Type::U64,
                    "size",
                    &Type::U64,
                    "codec",
                    &java_string(),
                ),
                &Type::Void,
            ),
            &make_args4(
                &operand_var(field_dest.as_str(), &slot.ty),
                &u64_operand(size_as_u64(offset)),
                &u64_operand(size_as_u64(size)),
                &codec_operand(&codec),
            ),
            pointer,
        ),
    );
    Ok(())
}

/// Tells a pointer where the parts of the value behind it stand.
pub open spec fn view_bindings(
    ty: RustType,
    pointer: OperandModel,
    source: OperandModel,
    code: CodeModel,
    defs: DefinitionsModel,
) -> (CodeModel, DefinitionsModel, Result<(), Text>)
    decreases ty, 4nat, 0nat,
{
    match ty.kind {
        TypeKind::Pat(inner) => {
            view_bindings((*inner), pointer, source, code, defs)
        },
        TypeKind::Array { element, .. } => {
            if is_nested((*element)) {
                match size_of((*element)) {
                    Err(error) => (code, defs, Err(error)),
                    Ok(size) => {
                        let (defs, codec) = view_codec((*element), defs);
                        let code = emit(
                            code,
                            runs_virtual(
                                POINTER_CLASS@,
                                "bindArrayMemoryViews"@,
                                instance_method(
                                    params4(
                                        "self"@,
                                        operand_type(pointer),
                                        "array"@,
                                        object_class(),
                                        "element_size"@,
                                        Type::U64,
                                        "element_codec"@,
                                        string_class(),
                                    ),
                                    Type::Void,
                                ),
                                args3(source, u64_value(((size as u64))), codec_value(codec)),
                                pointer,
                            ),
                        );
                        (code, defs, Ok(()))
                    },
                }
            } else {
                (code, defs, Ok(()))
            }
        },
        TypeKind::Tuple { class_name, elements } => {
            let defs = defined_fields(elements@, 0, defs);
            let slots = slots_of_fields(SlotNames::Elements, class_name@, elements@, defs);
            memory_bindings(elements@, slots, class_name@, pointer, source, 0, code, defs)
        },
        TypeKind::Closure { class_name, captures, .. } => {
            let defs = closure_parts_defined(class_name@, captures@, defs);
            let slots = slots_of_fields(SlotNames::Captures, class_name@, captures@, defs);
            memory_bindings(captures@, slots, class_name@, pointer, source, 0, code, defs)
        },
        TypeKind::Adt(adt) => {
            match adt.layout {
                Err(reason) => {
                    (code, defs, Err(reason@))
                },
                Ok(_) => {
                    if is_laid_out_struct(adt) {
                        let variant = (adt.variants@[0]);
                        let defs = struct_parts_defined(adt, defs);
                        let slots = slots_of_fields(
                            SlotNames::Declared,
                            adt.class_name@,
                            variant.fields@,
                            defs,
                        );
                        memory_bindings(
                            variant.fields@,
                            slots,
                            adt.class_name@,
                            pointer,
                            source,
                            0,
                            code,
                            defs,
                        )
                    } else {
                        (code, defs, Ok(()))
                    }
                },
            }
        },
        _ => {
            (code, defs, Ok(()))
        },
    }
}

/// Tells a pointer where the parts of the value behind it stand.
pub fn emit_memory_view_bindings(
    ty: &RustType,
    pointer: &Operand,
    source: &Operand,
    code: &mut Code,
    defs: &mut Definitions,
) -> (r: Result<(), String>)
    requires
        valid(*ty),
    ensures
        (final(code).deep_view(), final(defs).deep_view(), unit_outcome(r)) == view_bindings(
            *ty,
            pointer.deep_view(),
            source.deep_view(),
            old(code).deep_view(),
            old(defs).deep_view(),
        ),
    decreases ty, 4nat,
{
    match &ty.kind {
        TypeKind::Pat(inner) => {
            emit_memory_view_bindings(inner, pointer, source, code, defs)
        },
        TypeKind::Array { element, .. } => {
            if needs_nested_memory_binding(element) {
                let size = match layout_size_bytes(element) {
                    Ok(value) => value,
                    Err(error) => return Err(error),
                };
                let codec = pointer_view_codec_operand(element, defs);
                code.push(
                    virtual_run(
                        POINTER_CLASS,
                        "bindArrayMemoryViews",
                        &instance_signature(
                            &make_params4(
                                "self",
                                &Operand::get_type(pointer),
                                "array",
                                &object_type(),
                                "element_size",
                                &Type::U64,
                                "element_codec",
                                &java_string(),
                            ),
                            &Type::Void,
                        ),
                        &make_args3(
                            source,
                            &u64_operand(size_as_u64(size)),
                            &codec_operand(&codec),
                        ),
                        pointer,
                    ),
                );
                Ok(())
            } else {
                Ok(())
            }
        },
        TypeKind::Tuple { class_name, elements } => {
            define_fields(elements, defs);
            let slots = plan_slots(SlotNames::Elements, class_name.as_str(), elements, defs);
            emit_aggregate_memory_bindings(
                elements,
                &slots,
                class_name.as_str(),
                pointer,
                source,
                code,
                defs,
            )
        },
        TypeKind::Closure { class_name, captures, .. } => {
            define_closure_parts(class_name.as_str(), captures, defs);
            let slots = plan_slots(SlotNames::Captures, class_name.as_str(), captures, defs);
            emit_aggregate_memory_bindings(
                captures,
                &slots,
                class_name.as_str(),
                pointer,
                source,
                code,
                defs,
            )
        },
        TypeKind::Adt(adt) => {
            match &adt.layout {
                Err(reason) => {
                    Err(reason.clone())
                },
                Ok(_) => {
                    if is_known_struct(adt) {
                        proof {
                            assert(adt_valid(*adt));
                        }
                        let variant = &first_variant_of(adt);
                        define_struct_parts(adt, defs);
                        let slots = plan_slots(
                            SlotNames::Declared,
                            adt.class_name.as_str(),
                            &variant.fields,
                            defs,
                        );
                        emit_aggregate_memory_bindings(
                            &variant.fields,
                            &slots,
                            adt.class_name.as_str(),
                            pointer,
                            source,
                            code,
                            defs,
                        )
                    } else {
                        Ok(())
                    }
                },
            }
        },
        _ => {
            Ok(())
        },
    }
}

/// Stores the parts of an aggregate from one on, each through a helper method of its own.
pub open spec fn split_stored(
    fields: Seq<Field>,
    slots: Seq<Option<SlotModel>>,
    class_name: Text,
    source: OperandModel,
    storage: UnionStorageModel,
    base_offset: usize,
    helper_path: Text,
    codec_class: Text,
    from: nat,
    code: CodeModel,
    defs: DefinitionsModel,
    methods: Map<Text, DataTypeMethodModel>,
) -> (CodeModel, DefinitionsModel, Map<Text, DataTypeMethodModel>, Result<(), Text>)
    decreases fields, 0nat, fields.len() - from,
{
    if from >= fields.len() {
        (code, defs, methods, Ok(()))
    } else {
        let item = fields[from as int];
        match slot_at(slots, (from as usize)) {
            None => {
                split_stored(
                    fields,
                    slots,
                    class_name,
                    source,
                    storage,
                    base_offset,
                    helper_path,
                    codec_class,
                    from + 1,
                    code,
                    defs,
                    methods,
                )
            },
            Some(slot) => {
                if is_dynamic(item.ty) {
                    split_stored(
                        fields,
                        slots,
                        class_name,
                        source,
                        storage,
                        base_offset,
                        helper_path,
                        codec_class,
                        from + 1,
                        code,
                        defs,
                        methods,
                    )
                } else {
                    let field_path = part_path(helper_path, slots, (from as usize));
                    let helper_name = ("_encode"@ + field_path);
                    let signature = static_method(
                        params3(
                            "value"@,
                            class(class_name),
                            "bytes"@,
                            byte_array(),
                            "objects"@,
                            object_array(),
                        ),
                        Type::Void,
                    );
                    let helper = empty_code(0);
                    let (helper, field_dest) = fresh(helper, "union_aggregate_field"@);
                    let helper = emit(
                        helper,
                        reads_field(
                            field_dest,
                            variable("_1"@, class(class_name)),
                            slot.name,
                            slot.ty,
                            class_name,
                        ),
                    );
                    let (helper, defs, methods, outcome) = split_ty_stored(
                        item.ty,
                        variable(field_dest, slot.ty),
                        storage_at_start("_2"@, "_3"@),
                        offset_sum(base_offset, item.offset),
                        field_path,
                        codec_class,
                        helper,
                        defs,
                        methods,
                    );
                    match outcome {
                        Err(error) => (code, defs, methods, Err(error)),
                        Ok(_) => {
                            let helper = emit(helper, returns_nothing());
                            let list = helper.instructions;
                            let methods = function_put(
                                helper_name,
                                plain_function(helper_name, (signature), single_block(list)),
                                methods,
                            );
                            let code = emit(
                                code,
                                runs_static(
                                    codec_class,
                                    helper_name,
                                    signature,
                                    args3(
                                        source,
                                        variable(storage.bytes_var, byte_array()),
                                        variable(storage.objects_var, object_array()),
                                    ),
                                ),
                            );
                            split_stored(
                                fields,
                                slots,
                                class_name,
                                source,
                                storage,
                                base_offset,
                                helper_path,
                                codec_class,
                                from + 1,
                                code,
                                defs,
                                methods,
                            )
                        },
                    }
                }
            },
        }
    }
}

/// Stores the parts of an aggregate, each through a helper method of its own.
pub fn emit_split_aggregate_to_union_bytes(
    fields: &Vec<Field>,
    slots: &Vec<Option<Slot>>,
    class_name: &str,
    source: &Operand,
    storage: &UnionStorage,
    base_offset: usize,
    helper_path: &str,
    codec_class: &str,
    code: &mut Code,
    defs: &mut Definitions,
    methods: &mut NameMap<DataTypeMethod>,
) -> (r: Result<(), String>)
    requires
        all_valid(fields@),
    ensures
        (
            final(code).deep_view(),
            final(defs).deep_view(),
            final(methods).deep_view(),
            unit_outcome(r),
        ) == split_stored(
            fields@,
            slots.deep_view(),
            class_name@,
            source.deep_view(),
            storage.deep_view(),
            base_offset,
            helper_path@,
            codec_class@,
            0,
            old(code).deep_view(),
            old(defs).deep_view(),
            old(methods).deep_view(),
        ),
    decreases fields@, 0nat,
{
    let ghost start = split_stored(
            fields@,
            slots.deep_view(),
            class_name@,
            source.deep_view(),
            storage.deep_view(),
            base_offset,
            helper_path@,
            codec_class@,
            0,
            code.deep_view(),
            defs.deep_view(),
            methods.deep_view(),
        );
    for i in 0..fields.len()
        invariant
            all_valid(fields@),
            split_stored(
                fields@,
                slots.deep_view(),
                class_name@,
                source.deep_view(),
                storage.deep_view(),
                base_offset,
                helper_path@,
                codec_class@,
                i as nat,
                code.deep_view(),
                defs.deep_view(),
                methods.deep_view(),
            ) == start,
            start == split_stored(
                fields@,
                slots.deep_view(),
                class_name@,
                source.deep_view(),
                storage.deep_view(),
                base_offset,
                helper_path@,
                codec_class@,
                0,
                old(code).deep_view(),
                old(defs).deep_view(),
                old(methods).deep_view(),
            ),
    {
        let item = &fields[i];
        match &get_slot(slots, i) {
            None => {

            },
            Some(slot) => {
                if is_trait_object(&item.ty) {

                } else {
                    let field_path = part_path_of(helper_path, slots, i);
                    let helper_name = cat2("_encode", field_path.as_str());
                    let signature = static_signature(
                        &make_params3(
                            "value",
                            &class_type(class_name),
                            "bytes",
                            &byte_array_type(),
                            "objects",
                            &object_array_type(),
                        ),
                        &Type::Void,
                    );
                    let mut helper = Code::new(0);
                    let field_dest = helper.fresh("union_aggregate_field");
                    helper.push(
                        field_read(
                            field_dest.as_str(),
                            &operand_var("_1", &class_type(class_name)),
                            slot.name.as_str(),
                            &slot.ty,
                            class_name,
                        ),
                    );
                    let _done = match emit_split_ty_to(
                        &item.ty,
                        &operand_var(field_dest.as_str(), &slot.ty),
                        &UnionStorage::at_start("_2", "_3"),
                        add_offsets(base_offset, item.offset),
                        field_path.as_str(),
                        codec_class,
                        &mut helper,
                        defs,
                        methods,
                    ) {
                        Ok(value) => value,
                        Err(error) => return Err(error),
                    };
                    helper.push(return_nothing());
                    let list = helper.into_instructions();
                    put_function(
                        helper_name.as_str(),
                        make_function(
                            helper_name.as_str(),
                            copy_signature(&signature),
                            simple_body(&list),
                        ),
                        methods,
                    );
                    code.push(
                        static_run(
                            codec_class,
                            helper_name.as_str(),
                            &signature,
                            &make_args3(
                                source,
                                &operand_var(storage.bytes_var.as_str(), &byte_array_type()),
                                &operand_var(storage.objects_var.as_str(), &object_array_type()),
                            ),
                        ),
                    );
                }
            },
        }
    }
    Ok(())
}

/// Stores a part: an aggregate of several parts through helper methods, anything else in place.
pub open spec fn split_ty_stored(
    ty: RustType,
    source: OperandModel,
    storage: UnionStorageModel,
    base_offset: usize,
    helper_path: Text,
    codec_class: Text,
    code: CodeModel,
    defs: DefinitionsModel,
    methods: Map<Text, DataTypeMethodModel>,
) -> (CodeModel, DefinitionsModel, Map<Text, DataTypeMethodModel>, Result<(), Text>)
    decreases ty, 5nat, 0nat,
{
    match ty.kind {
        TypeKind::Tuple { class_name, elements } => {
            let defs = defined_fields(elements@, 0, defs);
            let slots = slots_of_fields(SlotNames::Elements, class_name@, elements@, defs);
            if is_split(slots) {
                split_stored(
                    elements@,
                    slots,
                    class_name@,
                    source,
                    storage,
                    base_offset,
                    helper_path,
                    codec_class,
                    0,
                    code,
                    defs,
                    methods,
                )
            } else {
                let (code, defs, outcome) = stored(ty, source, storage, base_offset, code, defs);
                match outcome {
                    Err(error) => (code, defs, methods, Err(error)),
                    Ok(_) => {
                        (code, defs, methods, Ok(()))
                    },
                }
            }
        },
        TypeKind::Closure { class_name, captures, .. } => {
            let defs = closure_parts_defined(class_name@, captures@, defs);
            let slots = slots_of_fields(SlotNames::Captures, class_name@, captures@, defs);
            if is_split(slots) {
                split_stored(
                    captures@,
                    slots,
                    class_name@,
                    source,
                    storage,
                    base_offset,
                    helper_path,
                    codec_class,
                    0,
                    code,
                    defs,
                    methods,
                )
            } else {
                let (code, defs, outcome) = stored(ty, source, storage, base_offset, code, defs);
                match outcome {
                    Err(error) => (code, defs, methods, Err(error)),
                    Ok(_) => {
                        (code, defs, methods, Ok(()))
                    },
                }
            }
        },
        TypeKind::Adt(adt) => {
            match adt.layout {
                Err(reason) => {
                    (code, defs, methods, Err(reason@))
                },
                Ok(_) => {
                    if is_laid_out_struct(adt) {
                        let variant = (adt.variants@[0]);
                        let defs = struct_parts_defined(adt, defs);
                        let slots = slots_of_fields(
                            SlotNames::Declared,
                            adt.class_name@,
                            variant.fields@,
                            defs,
                        );
                        if is_split(slots) {
                            split_stored(
                                variant.fields@,
                                slots,
                                adt.class_name@,
                                source,
                                storage,
                                base_offset,
                                helper_path,
                                codec_class,
                                0,
                                code,
                                defs,
                                methods,
                            )
                        } else {
                            let (code, defs, outcome) = stored(
                                ty,
                                source,
                                storage,
                                base_offset,
                                code,
                                defs,
                            );
                            match outcome {
                                Err(error) => (code, defs, methods, Err(error)),
                                Ok(_) => {
                                    (code, defs, methods, Ok(()))
                                },
                            }
                        }
                    } else {
                        let (code, defs, outcome) = stored(
                            ty,
                            source,
                            storage,
                            base_offset,
                            code,
                            defs,
                        );
                        match outcome {
                            Err(error) => (code, defs, methods, Err(error)),
                            Ok(_) => {
                                (code, defs, methods, Ok(()))
                            },
                        }
                    }
                },
            }
        },
        _ => {
            let (code, defs, outcome) = stored(ty, source, storage, base_offset, code, defs);
            match outcome {
                Err(error) => (code, defs, methods, Err(error)),
                Ok(_) => {
                    (code, defs, methods, Ok(()))
                },
            }
        },
    }
}

/// Stores a part of an aggregate.
pub fn emit_split_ty_to(
    ty: &RustType,
    source: &Operand,
    storage: &UnionStorage,
    base_offset: usize,
    helper_path: &str,
    codec_class: &str,
    code: &mut Code,
    defs: &mut Definitions,
    methods: &mut NameMap<DataTypeMethod>,
) -> (r: Result<(), String>)
    requires
        valid(*ty),
    ensures
        (
            final(code).deep_view(),
            final(defs).deep_view(),
            final(methods).deep_view(),
            unit_outcome(r),
        ) == split_ty_stored(
            *ty,
            source.deep_view(),
            storage.deep_view(),
            base_offset,
            helper_path@,
            codec_class@,
            old(code).deep_view(),
            old(defs).deep_view(),
            old(methods).deep_view(),
        ),
    decreases ty, 5nat,
{
    match &ty.kind {
        TypeKind::Tuple { class_name, elements } => {
            define_fields(elements, defs);
            let slots = plan_slots(SlotNames::Elements, class_name.as_str(), elements, defs);
            if has_several_slots(&slots) {
                emit_split_aggregate_to_union_bytes(
                    elements,
                    &slots,
                    class_name.as_str(),
                    source,
                    storage,
                    base_offset,
                    helper_path,
                    codec_class,
                    code,
                    defs,
                    methods,
                )
            } else {
                let _done = match emit_ty_to_union_bytes(
                    ty,
                    source,
                    storage,
                    base_offset,
                    code,
                    defs,
                ) {
                    Ok(value) => value,
                    Err(error) => return Err(error),
                };
                Ok(())
            }
        },
        TypeKind::Closure { class_name, captures, .. } => {
            define_closure_parts(class_name.as_str(), captures, defs);
            let slots = plan_slots(SlotNames::Captures, class_name.as_str(), captures, defs);
            if has_several_slots(&slots) {
                emit_split_aggregate_to_union_bytes(
                    captures,
                    &slots,
                    class_name.as_str(),
                    source,
                    storage,
                    base_offset,
                    helper_path,
                    codec_class,
                    code,
                    defs,
                    methods,
                )
            } else {
                let _done = match emit_ty_to_union_bytes(
                    ty,
                    source,
                    storage,
                    base_offset,
                    code,
                    defs,
                ) {
                    Ok(value) => value,
                    Err(error) => return Err(error),
                };
                Ok(())
            }
        },
        TypeKind::Adt(adt) => {
            match &adt.layout {
                Err(reason) => {
                    Err(reason.clone())
                },
                Ok(_) => {
                    if is_known_struct(adt) {
                        proof {
                            assert(adt_valid(*adt));
                        }
                        let variant = &first_variant_of(adt);
                        define_struct_parts(adt, defs);
                        let slots = plan_slots(
                            SlotNames::Declared,
                            adt.class_name.as_str(),
                            &variant.fields,
                            defs,
                        );
                        if has_several_slots(&slots) {
                            emit_split_aggregate_to_union_bytes(
                                &variant.fields,
                                &slots,
                                adt.class_name.as_str(),
                                source,
                                storage,
                                base_offset,
                                helper_path,
                                codec_class,
                                code,
                                defs,
                                methods,
                            )
                        } else {
                            let _done = match emit_ty_to_union_bytes(
                                ty,
                                source,
                                storage,
                                base_offset,
                                code,
                                defs,
                            ) {
                                Ok(value) => value,
                                Err(error) => return Err(error),
                            };
                            Ok(())
                        }
                    } else {
                        let _done = match emit_ty_to_union_bytes(
                            ty,
                            source,
                            storage,
                            base_offset,
                            code,
                            defs,
                        ) {
                            Ok(value) => value,
                            Err(error) => return Err(error),
                        };
                        Ok(())
                    }
                },
            }
        },
        _ => {
            let _done = match emit_ty_to_union_bytes(ty, source, storage, base_offset, code, defs) {
                Ok(value) => value,
                Err(error) => return Err(error),
            };
            Ok(())
        },
    }
}

/// The parts of an aggregate from one on, each read by a helper method of its own.
pub open spec fn split_loaded(
    fields: Seq<Field>,
    slots: Seq<Option<SlotModel>>,
    storage: UnionStorageModel,
    base_offset: usize,
    helper_path: Text,
    codec_class: Text,
    from: nat,
    code: CodeModel,
    defs: DefinitionsModel,
    methods: Map<Text, DataTypeMethodModel>,
    values: Seq<(OperandModel, TypeModel)>,
) -> (CodeModel, DefinitionsModel, Map<Text, DataTypeMethodModel>, Seq<(
    OperandModel,
    TypeModel,
)>, Result<(), Text>)
    decreases fields, 0nat, fields.len() - from,
{
    if from >= fields.len() {
        (code, defs, methods, values, Ok(()))
    } else {
        let item = fields[from as int];
        match slot_at(slots, (from as usize)) {
            None => {
                split_loaded(
                    fields,
                    slots,
                    storage,
                    base_offset,
                    helper_path,
                    codec_class,
                    from + 1,
                    code,
                    defs,
                    methods,
                    values,
                )
            },
            Some(slot) => {
                if is_dynamic(item.ty) {
                    let values = value_appended(default_value(slot.ty), slot.ty, values);
                    split_loaded(
                        fields,
                        slots,
                        storage,
                        base_offset,
                        helper_path,
                        codec_class,
                        from + 1,
                        code,
                        defs,
                        methods,
                        values,
                    )
                } else {
                    let field_path = part_path(helper_path, slots, (from as usize));
                    let helper_name = ("_decode"@ + field_path);
                    let signature = static_method(
                        params2("bytes"@, byte_array(), "objects"@, object_array()),
                        slot.ty,
                    );
                    let helper = empty_code(0);
                    let (helper, defs, methods, outcome) = split_ty_loaded(
                        item.ty,
                        storage_at_start("_1"@, "_2"@),
                        offset_sum(base_offset, item.offset),
                        field_path,
                        codec_class,
                        helper,
                        defs,
                        methods,
                    );
                    match outcome {
                        Err(error) => (code, defs, methods, values, Err(error)),
                        Ok(value) => {
                            let helper = emit(helper, returns_value(value));
                            let list = helper.instructions;
                            let methods = function_put(
                                helper_name,
                                plain_function(helper_name, (signature), single_block(list)),
                                methods,
                            );
                            let (code, dest) = fresh(code, "union_decoded_field"@);
                            let code = emit(
                                code,
                                calls_static(
                                    dest,
                                    codec_class,
                                    helper_name,
                                    signature,
                                    args2(
                                        variable(storage.bytes_var, byte_array()),
                                        variable(storage.objects_var, object_array()),
                                    ),
                                ),
                            );
                            let values = value_appended(variable(dest, slot.ty), slot.ty, values);
                            split_loaded(
                                fields,
                                slots,
                                storage,
                                base_offset,
                                helper_path,
                                codec_class,
                                from + 1,
                                code,
                                defs,
                                methods,
                                values,
                            )
                        },
                    }
                }
            },
        }
    }
}

/// Loads the parts of an aggregate, each through a helper method of its own.
pub fn emit_split_fields_from_union_bytes(
    fields: &Vec<Field>,
    slots: &Vec<Option<Slot>>,
    storage: &UnionStorage,
    base_offset: usize,
    helper_path: &str,
    codec_class: &str,
    code: &mut Code,
    defs: &mut Definitions,
    methods: &mut NameMap<DataTypeMethod>,
    values: &mut Vec<(Operand, Type)>,
) -> (r: Result<(), String>)
    requires
        all_valid(fields@),
    ensures
        (
            final(code).deep_view(),
            final(defs).deep_view(),
            final(methods).deep_view(),
            final(values).deep_view(),
            unit_outcome(r),
        ) == split_loaded(
            fields@,
            slots.deep_view(),
            storage.deep_view(),
            base_offset,
            helper_path@,
            codec_class@,
            0,
            old(code).deep_view(),
            old(defs).deep_view(),
            old(methods).deep_view(),
            old(values).deep_view(),
        ),
    decreases fields@, 0nat,
{
    let ghost start = split_loaded(
            fields@,
            slots.deep_view(),
            storage.deep_view(),
            base_offset,
            helper_path@,
            codec_class@,
            0,
            code.deep_view(),
            defs.deep_view(),
            methods.deep_view(),
            values.deep_view(),
        );
    for i in 0..fields.len()
        invariant
            all_valid(fields@),
            split_loaded(
                fields@,
                slots.deep_view(),
                storage.deep_view(),
                base_offset,
                helper_path@,
                codec_class@,
                i as nat,
                code.deep_view(),
                defs.deep_view(),
                methods.deep_view(),
                values.deep_view(),
            ) == start,
            start == split_loaded(
                fields@,
                slots.deep_view(),
                storage.deep_view(),
                base_offset,
                helper_path@,
                codec_class@,
                0,
                old(code).deep_view(),
                old(defs).deep_view(),
                old(methods).deep_view(),
                old(values).deep_view(),
            ),
    {
        let item = &fields[i];
        match &get_slot(slots, i) {
            None => {

            },
            Some(slot) => {
                if is_trait_object(&item.ty) {
                    append_value(&default_operand_for_codec(&slot.ty), &slot.ty, values);
                } else {
                    let field_path = part_path_of(helper_path, slots, i);
                    let helper_name = cat2("_decode", field_path.as_str());
                    let signature = static_signature(
                        &make_params2("bytes", &byte_array_type(), "objects", &object_array_type()),
                        &slot.ty,
                    );
                    let mut helper = Code::new(0);
                    let value = match emit_split_ty_from(
                        &item.ty,
                        &UnionStorage::at_start("_1", "_2"),
                        add_offsets(base_offset, item.offset),
                        field_path.as_str(),
                        codec_class,
                        &mut helper,
                        defs,
                        methods,
                    ) {
                        Ok(value) => value,
                        Err(error) => return Err(error),
                    };
                    helper.push(return_value(&value));
                    let list = helper.into_instructions();
                    put_function(
                        helper_name.as_str(),
                        make_function(
                            helper_name.as_str(),
                            copy_signature(&signature),
                            simple_body(&list),
                        ),
                        methods,
                    );
                    let dest = code.fresh("union_decoded_field");
                    code.push(
                        static_call(
                            dest.as_str(),
                            codec_class,
                            helper_name.as_str(),
                            &signature,
                            &make_args2(
                                &operand_var(storage.bytes_var.as_str(), &byte_array_type()),
                                &operand_var(storage.objects_var.as_str(), &object_array_type()),
                            ),
                        ),
                    );
                    append_value(&operand_var(dest.as_str(), &slot.ty), &slot.ty, values);
                }
            },
        }
    }
    Ok(())
}

/// An aggregate whose parts are read by helper methods.
pub open spec fn split_aggregate_loaded(
    fields: Seq<Field>,
    slots: Seq<Option<SlotModel>>,
    class_name: Text,
    storage: UnionStorageModel,
    base_offset: usize,
    helper_path: Text,
    codec_class: Text,
    code: CodeModel,
    defs: DefinitionsModel,
    methods: Map<Text, DataTypeMethodModel>,
) -> (CodeModel, DefinitionsModel, Map<Text, DataTypeMethodModel>, Result<OperandModel, Text>)
    decreases fields, 1nat, 0nat,
{
    let values = typed0();
    let (code, defs, methods, values, outcome) = split_loaded(
        fields,
        slots,
        storage,
        base_offset,
        helper_path,
        codec_class,
        0,
        code,
        defs,
        methods,
        values,
    );
    match outcome {
        Err(error) => (code, defs, methods, Err(error)),
        Ok(_) => {
            let (code, dest) = fresh(code, "union_aggregate_value"@);
            let code = emit(code, makes_object(dest, class_name, values));
            (code, defs, methods, Ok(variable(dest, class(class_name))))
        },
    }
}

/// Loads an aggregate whose parts are read by helper methods.
pub fn emit_split_aggregate_from_union_bytes(
    fields: &Vec<Field>,
    slots: &Vec<Option<Slot>>,
    class_name: &str,
    storage: &UnionStorage,
    base_offset: usize,
    helper_path: &str,
    codec_class: &str,
    code: &mut Code,
    defs: &mut Definitions,
    methods: &mut NameMap<DataTypeMethod>,
) -> (r: Result<Operand, String>)
    requires
        all_valid(fields@),
    ensures
        (
            final(code).deep_view(),
            final(defs).deep_view(),
            final(methods).deep_view(),
            outcome_model(r),
        ) == split_aggregate_loaded(
            fields@,
            slots.deep_view(),
            class_name@,
            storage.deep_view(),
            base_offset,
            helper_path@,
            codec_class@,
            old(code).deep_view(),
            old(defs).deep_view(),
            old(methods).deep_view(),
        ),
    decreases fields@, 1nat,
{
    let mut values = make_typed0();
    let _done = match emit_split_fields_from_union_bytes(
        fields,
        slots,
        storage,
        base_offset,
        helper_path,
        codec_class,
        code,
        defs,
        methods,
        &mut values,
    ) {
        Ok(value) => value,
        Err(error) => return Err(error),
    };
    let dest = code.fresh("union_aggregate_value");
    code.push(construct(dest.as_str(), class_name, &values));
    Ok(operand_var(dest.as_str(), &class_type(class_name)))
}

/// A part: an aggregate of several parts through helper methods, anything else in place.
pub open spec fn split_ty_loaded(
    ty: RustType,
    storage: UnionStorageModel,
    base_offset: usize,
    helper_path: Text,
    codec_class: Text,
    code: CodeModel,
    defs: DefinitionsModel,
    methods: Map<Text, DataTypeMethodModel>,
) -> (CodeModel, DefinitionsModel, Map<Text, DataTypeMethodModel>, Result<OperandModel, Text>)
    decreases ty, 5nat, 0nat,
{
    match ty.kind {
        TypeKind::Tuple { class_name, elements } => {
            let defs = defined_fields(elements@, 0, defs);
            let slots = slots_of_fields(SlotNames::Elements, class_name@, elements@, defs);
            if is_split(slots) {
                split_aggregate_loaded(
                    elements@,
                    slots,
                    class_name@,
                    storage,
                    base_offset,
                    helper_path,
                    codec_class,
                    code,
                    defs,
                    methods,
                )
            } else {
                let (code, defs, outcome) = loaded(ty, storage, base_offset, code, defs);
                match outcome {
                    Err(error) => (code, defs, methods, Err(error)),
                    Ok(value) => {
                        (code, defs, methods, Ok(value))
                    },
                }
            }
        },
        TypeKind::Closure { class_name, captures, .. } => {
            let defs = closure_parts_defined(class_name@, captures@, defs);
            let slots = slots_of_fields(SlotNames::Captures, class_name@, captures@, defs);
            if is_split(slots) {
                split_aggregate_loaded(
                    captures@,
                    slots,
                    class_name@,
                    storage,
                    base_offset,
                    helper_path,
                    codec_class,
                    code,
                    defs,
                    methods,
                )
            } else {
                let (code, defs, outcome) = loaded(ty, storage, base_offset, code, defs);
                match outcome {
                    Err(error) => (code, defs, methods, Err(error)),
                    Ok(value) => {
                        (code, defs, methods, Ok(value))
                    },
                }
            }
        },
        TypeKind::Adt(adt) => {
            match adt.layout {
                Err(reason) => {
                    (code, defs, methods, Err(reason@))
                },
                Ok(_) => {
                    if is_laid_out_struct(adt) {
                        let variant = (adt.variants@[0]);
                        let defs = struct_parts_defined(adt, defs);
                        let slots = slots_of_fields(
                            SlotNames::Declared,
                            adt.class_name@,
                            variant.fields@,
                            defs,
                        );
                        if is_split(slots) {
                            split_aggregate_loaded(
                                variant.fields@,
                                slots,
                                adt.class_name@,
                                storage,
                                base_offset,
                                helper_path,
                                codec_class,
                                code,
                                defs,
                                methods,
                            )
                        } else {
                            let (code, defs, outcome) = loaded(
                                ty,
                                storage,
                                base_offset,
                                code,
                                defs,
                            );
                            match outcome {
                                Err(error) => (code, defs, methods, Err(error)),
                                Ok(value) => {
                                    (code, defs, methods, Ok(value))
                                },
                            }
                        }
                    } else {
                        let (code, defs, outcome) = loaded(ty, storage, base_offset, code, defs);
                        match outcome {
                            Err(error) => (code, defs, methods, Err(error)),
                            Ok(value) => {
                                (code, defs, methods, Ok(value))
                            },
                        }
                    }
                },
            }
        },
        _ => {
            let (code, defs, outcome) = loaded(ty, storage, base_offset, code, defs);
            match outcome {
                Err(error) => (code, defs, methods, Err(error)),
                Ok(value) => {
                    (code, defs, methods, Ok(value))
                },
            }
        },
    }
}

/// Loads a part of an aggregate.
pub fn emit_split_ty_from(
    ty: &RustType,
    storage: &UnionStorage,
    base_offset: usize,
    helper_path: &str,
    codec_class: &str,
    code: &mut Code,
    defs: &mut Definitions,
    methods: &mut NameMap<DataTypeMethod>,
) -> (r: Result<Operand, String>)
    requires
        valid(*ty),
    ensures
        (
            final(code).deep_view(),
            final(defs).deep_view(),
            final(methods).deep_view(),
            outcome_model(r),
        ) == split_ty_loaded(
            *ty,
            storage.deep_view(),
            base_offset,
            helper_path@,
            codec_class@,
            old(code).deep_view(),
            old(defs).deep_view(),
            old(methods).deep_view(),
        ),
    decreases ty, 5nat,
{
    match &ty.kind {
        TypeKind::Tuple { class_name, elements } => {
            define_fields(elements, defs);
            let slots = plan_slots(SlotNames::Elements, class_name.as_str(), elements, defs);
            if has_several_slots(&slots) {
                emit_split_aggregate_from_union_bytes(
                    elements,
                    &slots,
                    class_name.as_str(),
                    storage,
                    base_offset,
                    helper_path,
                    codec_class,
                    code,
                    defs,
                    methods,
                )
            } else {
                let value = match emit_ty_from_union_bytes(ty, storage, base_offset, code, defs) {
                    Ok(value) => value,
                    Err(error) => return Err(error),
                };
                Ok(value)
            }
        },
        TypeKind::Closure { class_name, captures, .. } => {
            define_closure_parts(class_name.as_str(), captures, defs);
            let slots = plan_slots(SlotNames::Captures, class_name.as_str(), captures, defs);
            if has_several_slots(&slots) {
                emit_split_aggregate_from_union_bytes(
                    captures,
                    &slots,
                    class_name.as_str(),
                    storage,
                    base_offset,
                    helper_path,
                    codec_class,
                    code,
                    defs,
                    methods,
                )
            } else {
                let value = match emit_ty_from_union_bytes(ty, storage, base_offset, code, defs) {
                    Ok(value) => value,
                    Err(error) => return Err(error),
                };
                Ok(value)
            }
        },
        TypeKind::Adt(adt) => {
            match &adt.layout {
                Err(reason) => {
                    Err(reason.clone())
                },
                Ok(_) => {
                    if is_known_struct(adt) {
                        proof {
                            assert(adt_valid(*adt));
                        }
                        let variant = &first_variant_of(adt);
                        define_struct_parts(adt, defs);
                        let slots = plan_slots(
                            SlotNames::Declared,
                            adt.class_name.as_str(),
                            &variant.fields,
                            defs,
                        );
                        if has_several_slots(&slots) {
                            emit_split_aggregate_from_union_bytes(
                                &variant.fields,
                                &slots,
                                adt.class_name.as_str(),
                                storage,
                                base_offset,
                                helper_path,
                                codec_class,
                                code,
                                defs,
                                methods,
                            )
                        } else {
                            let value = match emit_ty_from_union_bytes(
                                ty,
                                storage,
                                base_offset,
                                code,
                                defs,
                            ) {
                                Ok(value) => value,
                                Err(error) => return Err(error),
                            };
                            Ok(value)
                        }
                    } else {
                        let value = match emit_ty_from_union_bytes(
                            ty,
                            storage,
                            base_offset,
                            code,
                            defs,
                        ) {
                            Ok(value) => value,
                            Err(error) => return Err(error),
                        };
                        Ok(value)
                    }
                },
            }
        },
        _ => {
            let value = match emit_ty_from_union_bytes(ty, storage, base_offset, code, defs) {
                Ok(value) => value,
                Err(error) => return Err(error),
            };
            Ok(value)
        },
    }
}

/// Stores the whole value of a codec; the parts of an aggregate go through helper methods.
pub open spec fn whole_stored(
    ty: RustType,
    source: OperandModel,
    storage: UnionStorageModel,
    codec_class: Text,
    code: CodeModel,
    defs: DefinitionsModel,
    methods: Map<Text, DataTypeMethodModel>,
) -> (CodeModel, DefinitionsModel, Map<Text, DataTypeMethodModel>, Result<(), Text>)
    decreases ty, 5nat, 0nat,
{
    match ty.kind {
        TypeKind::Tuple { class_name, elements } => {
            let slots = slots_of_fields(SlotNames::Elements, class_name@, elements@, defs);
            split_stored(
                elements@,
                slots,
                class_name@,
                source,
                storage,
                0,
                ""@,
                codec_class,
                0,
                code,
                defs,
                methods,
            )
        },
        TypeKind::Closure { class_name, captures, .. } => {
            let slots = slots_of_fields(SlotNames::Captures, class_name@, captures@, defs);
            split_stored(
                captures@,
                slots,
                class_name@,
                source,
                storage,
                0,
                ""@,
                codec_class,
                0,
                code,
                defs,
                methods,
            )
        },
        TypeKind::Adt(adt) => {
            if is_laid_out_struct(adt) {
                let variant = (adt.variants@[0]);
                let slots = slots_of_fields(
                    SlotNames::Declared,
                    adt.class_name@,
                    variant.fields@,
                    defs,
                );
                split_stored(
                    variant.fields@,
                    slots,
                    adt.class_name@,
                    source,
                    storage,
                    0,
                    ""@,
                    codec_class,
                    0,
                    code,
                    defs,
                    methods,
                )
            } else {
                let (code, defs, outcome) = stored(ty, source, storage, 0, code, defs);
                match outcome {
                    Err(error) => (code, defs, methods, Err(error)),
                    Ok(_) => {
                        (code, defs, methods, Ok(()))
                    },
                }
            }
        },
        _ => {
            let (code, defs, outcome) = stored(ty, source, storage, 0, code, defs);
            match outcome {
                Err(error) => (code, defs, methods, Err(error)),
                Ok(_) => {
                    (code, defs, methods, Ok(()))
                },
            }
        },
    }
}

/// Stores the whole value of a codec.
pub fn emit_whole_to(
    ty: &RustType,
    source: &Operand,
    storage: &UnionStorage,
    codec_class: &str,
    code: &mut Code,
    defs: &mut Definitions,
    methods: &mut NameMap<DataTypeMethod>,
) -> (r: Result<(), String>)
    requires
        valid(*ty),
    ensures
        (
            final(code).deep_view(),
            final(defs).deep_view(),
            final(methods).deep_view(),
            unit_outcome(r),
        ) == whole_stored(
            *ty,
            source.deep_view(),
            storage.deep_view(),
            codec_class@,
            old(code).deep_view(),
            old(defs).deep_view(),
            old(methods).deep_view(),
        ),
    decreases ty, 5nat,
{
    match &ty.kind {
        TypeKind::Tuple { class_name, elements } => {
            let slots = plan_slots(SlotNames::Elements, class_name.as_str(), elements, defs);
            emit_split_aggregate_to_union_bytes(
                elements,
                &slots,
                class_name.as_str(),
                source,
                storage,
                0,
                "",
                codec_class,
                code,
                defs,
                methods,
            )
        },
        TypeKind::Closure { class_name, captures, .. } => {
            let slots = plan_slots(SlotNames::Captures, class_name.as_str(), captures, defs);
            emit_split_aggregate_to_union_bytes(
                captures,
                &slots,
                class_name.as_str(),
                source,
                storage,
                0,
                "",
                codec_class,
                code,
                defs,
                methods,
            )
        },
        TypeKind::Adt(adt) => {
            if is_known_struct(adt) {
                proof {
                    assert(adt_valid(*adt));
                }
                let variant = &first_variant_of(adt);
                let slots = plan_slots(
                    SlotNames::Declared,
                    adt.class_name.as_str(),
                    &variant.fields,
                    defs,
                );
                emit_split_aggregate_to_union_bytes(
                    &variant.fields,
                    &slots,
                    adt.class_name.as_str(),
                    source,
                    storage,
                    0,
                    "",
                    codec_class,
                    code,
                    defs,
                    methods,
                )
            } else {
                let _done = match emit_ty_to_union_bytes(ty, source, storage, 0, code, defs) {
                    Ok(value) => value,
                    Err(error) => return Err(error),
                };
                Ok(())
            }
        },
        _ => {
            let _done = match emit_ty_to_union_bytes(ty, source, storage, 0, code, defs) {
                Ok(value) => value,
                Err(error) => return Err(error),
            };
            Ok(())
        },
    }
}

/// The whole value of a codec; the parts of an aggregate go through helper methods.
pub open spec fn whole_loaded(
    ty: RustType,
    storage: UnionStorageModel,
    codec_class: Text,
    code: CodeModel,
    defs: DefinitionsModel,
    methods: Map<Text, DataTypeMethodModel>,
) -> (CodeModel, DefinitionsModel, Map<Text, DataTypeMethodModel>, Result<OperandModel, Text>)
    decreases ty, 5nat, 0nat,
{
    match ty.kind {
        TypeKind::Tuple { class_name, elements } => {
            let slots = slots_of_fields(SlotNames::Elements, class_name@, elements@, defs);
            split_aggregate_loaded(
                elements@,
                slots,
                class_name@,
                storage,
                0,
                ""@,
                codec_class,
                code,
                defs,
                methods,
            )
        },
        TypeKind::Closure { class_name, captures, .. } => {
            let slots = slots_of_fields(SlotNames::Captures, class_name@, captures@, defs);
            split_aggregate_loaded(
                captures@,
                slots,
                class_name@,
                storage,
                0,
                ""@,
                codec_class,
                code,
                defs,
                methods,
            )
        },
        TypeKind::Adt(adt) => {
            if is_laid_out_struct(adt) {
                let variant = (adt.variants@[0]);
                let slots = slots_of_fields(
                    SlotNames::Declared,
                    adt.class_name@,
                    variant.fields@,
                    defs,
                );
                split_aggregate_loaded(
                    variant.fields@,
                    slots,
                    adt.class_name@,
                    storage,
                    0,
                    ""@,
                    codec_class,
                    code,
                    defs,
                    methods,
                )
            } else {
                let (code, defs, outcome) = loaded(ty, storage, 0, code, defs);
                match outcome {
                    Err(error) => (code, defs, methods, Err(error)),
                    Ok(value) => {
                        (code, defs, methods, Ok(value))
                    },
                }
            }
        },
        _ => {
            let (code, defs, outcome) = loaded(ty, storage, 0, code, defs);
            match outcome {
                Err(error) => (code, defs, methods, Err(error)),
                Ok(value) => {
                    (code, defs, methods, Ok(value))
                },
            }
        },
    }
}

/// Loads the whole value of a codec.
pub fn emit_whole_from(
    ty: &RustType,
    storage: &UnionStorage,
    codec_class: &str,
    code: &mut Code,
    defs: &mut Definitions,
    methods: &mut NameMap<DataTypeMethod>,
) -> (r: Result<Operand, String>)
    requires
        valid(*ty),
    ensures
        (
            final(code).deep_view(),
            final(defs).deep_view(),
            final(methods).deep_view(),
            outcome_model(r),
        ) == whole_loaded(
            *ty,
            storage.deep_view(),
            codec_class@,
            old(code).deep_view(),
            old(defs).deep_view(),
            old(methods).deep_view(),
        ),
    decreases ty, 5nat,
{
    match &ty.kind {
        TypeKind::Tuple { class_name, elements } => {
            let slots = plan_slots(SlotNames::Elements, class_name.as_str(), elements, defs);
            emit_split_aggregate_from_union_bytes(
                elements,
                &slots,
                class_name.as_str(),
                storage,
                0,
                "",
                codec_class,
                code,
                defs,
                methods,
            )
        },
        TypeKind::Closure { class_name, captures, .. } => {
            let slots = plan_slots(SlotNames::Captures, class_name.as_str(), captures, defs);
            emit_split_aggregate_from_union_bytes(
                captures,
                &slots,
                class_name.as_str(),
                storage,
                0,
                "",
                codec_class,
                code,
                defs,
                methods,
            )
        },
        TypeKind::Adt(adt) => {
            if is_known_struct(adt) {
                proof {
                    assert(adt_valid(*adt));
                }
                let variant = &first_variant_of(adt);
                let slots = plan_slots(
                    SlotNames::Declared,
                    adt.class_name.as_str(),
                    &variant.fields,
                    defs,
                );
                emit_split_aggregate_from_union_bytes(
                    &variant.fields,
                    &slots,
                    adt.class_name.as_str(),
                    storage,
                    0,
                    "",
                    codec_class,
                    code,
                    defs,
                    methods,
                )
            } else {
                let value = match emit_ty_from_union_bytes(ty, storage, 0, code, defs) {
                    Ok(value) => value,
                    Err(error) => return Err(error),
                };
                Ok(value)
            }
        },
        _ => {
            let value = match emit_ty_from_union_bytes(ty, storage, 0, code, defs) {
                Ok(value) => value,
                Err(error) => return Err(error),
            };
            Ok(value)
        },
    }
}

/// The methods of a codec: `encode`, `decode`, `bind` and their helpers.
pub open spec fn codec_methods(
    ty: RustType,
    size: usize,
    defs: DefinitionsModel,
    methods: Map<Text, DataTypeMethodModel>,
) -> (DefinitionsModel, Map<Text, DataTypeMethodModel>, Result<(), Text>)
    decreases ty, 6nat, 0nat,
{
    let objects = objects_size(ty, size);
    let value_ty = lowered(ty);
    let code = empty_code(0);
    let code = emit(code, makes_array("_bytes"@, Type::I8, i32_value(small_number(size))));
    let code = emit(code, makes_objects("_objects"@, objects));
    let (code, defs, methods, outcome) = whole_stored(
        ty,
        variable("_1"@, value_ty),
        storage_at_start("_bytes"@, "_objects"@),
        ty.codec_class@,
        code,
        defs,
        methods,
    );
    match outcome {
        Err(error) => (defs, methods, Err(error)),
        Ok(_) => {
            let code = emit(code, returns_value(variable("_bytes"@, byte_array())));
            let encode_list = code.instructions;
            let methods = function_put(
                "encode"@,
                plain_function(
                    "encode"@,
                    static_method(params1("value"@, value_ty), byte_array()),
                    single_block(encode_list),
                ),
                methods,
            );
            let code = empty_code(0);
            let code = emit(code, makes_objects("_objects"@, objects));
            let (code, defs, methods, outcome) = whole_loaded(
                ty,
                storage_at_start("_1"@, "_objects"@),
                ty.codec_class@,
                code,
                defs,
                methods,
            );
            match outcome {
                Err(error) => (defs, methods, Err(error)),
                Ok(decoded) => {
                    let code = emit(code, returns_value(decoded));
                    let decode_list = code.instructions;
                    let methods = function_put(
                        "decode"@,
                        plain_function(
                            "decode"@,
                            static_method(params1("bytes"@, byte_array()), value_ty),
                            single_block(decode_list),
                        ),
                        methods,
                    );
                    let code = empty_code(0);
                    let pointer_ty = pointer_to(value_ty);
                    let (code, defs, outcome) = view_bindings(
                        ty,
                        variable("_1"@, pointer_ty),
                        variable("_2"@, value_ty),
                        code,
                        defs,
                    );
                    match outcome {
                        Err(error) => (defs, methods, Err(error)),
                        Ok(_) => {
                            let code = emit(code, returns_nothing());
                            let bind_list = code.instructions;
                            let methods = function_put(
                                "bind"@,
                                plain_function(
                                    "bind"@,
                                    static_method(
                                        params2("pointer"@, pointer_ty, "value"@, value_ty),
                                        Type::Void,
                                    ),
                                    single_block(bind_list),
                                ),
                                methods,
                            );
                            (defs, methods, Ok(()))
                        },
                    }
                },
            }
        },
    }
}

/// Makes the methods of a codec.
#[verifier::rlimit(80)]
pub fn generate_codec_methods(
    ty: &RustType,
    size: usize,
    defs: &mut Definitions,
    methods: &mut NameMap<DataTypeMethod>,
) -> (r: Result<(), String>)
    requires
        valid(*ty),
    ensures
        (
            final(defs).deep_view(),
            final(methods).deep_view(),
            unit_outcome(r),
        ) == codec_methods(*ty, size, old(defs).deep_view(), old(methods).deep_view()),
    decreases ty, 6nat,
{
    let objects: usize = union_object_storage_size(ty, size);
    let value_ty = RustType::jvm_type(ty);
    let mut code = Code::new(0);
    code.push(array_new("_bytes", &Type::I8, &i32_operand(small_number_of(size))));
    code.push(allocate_union_object_storage("_objects", objects));
    let _done = match emit_whole_to(
        ty,
        &operand_var("_1", &value_ty),
        &UnionStorage::at_start("_bytes", "_objects"),
        ty.codec_class.as_str(),
        &mut code,
        defs,
        methods,
    ) {
        Ok(value) => value,
        Err(error) => return Err(error),
    };
    code.push(return_value(&operand_var("_bytes", &byte_array_type())));
    let encode_list = code.into_instructions();
    put_function(
        "encode",
        make_function(
            "encode",
            static_signature(&make_params1("value", &value_ty), &byte_array_type()),
            simple_body(&encode_list),
        ),
        methods,
    );
    let mut code = Code::new(0);
    code.push(allocate_union_object_storage("_objects", objects));
    let decoded = match emit_whole_from(
        ty,
        &UnionStorage::at_start("_1", "_objects"),
        ty.codec_class.as_str(),
        &mut code,
        defs,
        methods,
    ) {
        Ok(value) => value,
        Err(error) => return Err(error),
    };
    code.push(return_value(&decoded));
    let decode_list = code.into_instructions();
    put_function(
        "decode",
        make_function(
            "decode",
            static_signature(&make_params1("bytes", &byte_array_type()), &value_ty),
            simple_body(&decode_list),
        ),
        methods,
    );
    let mut code = Code::new(0);
    let pointer_ty = pointer_type(&value_ty);
    let _done = match emit_memory_view_bindings(
        ty,
        &operand_var("_1", &pointer_ty),
        &operand_var("_2", &value_ty),
        &mut code,
        defs,
    ) {
        Ok(value) => value,
        Err(error) => return Err(error),
    };
    code.push(return_nothing());
    let bind_list = code.into_instructions();
    put_function(
        "bind",
        make_function(
            "bind",
            static_signature(
                &make_params2("pointer", &pointer_ty, "value", &value_ty),
                &Type::Void,
            ),
            simple_body(&bind_list),
        ),
        methods,
    );
    Ok(())
}

/// The methods that tell the size and the codec of the elements of an array.
pub open spec fn array_methods(
    ty: RustType,
    defs: DefinitionsModel,
    methods: Map<Text, DataTypeMethodModel>,
) -> (DefinitionsModel, Map<Text, DataTypeMethodModel>, Result<(), Text>)
    decreases ty, 6nat, 0nat,
{
    match ty.kind {
        TypeKind::Array { element, .. } => {
            match size_of((*element)) {
                Err(error) => (defs, methods, Err(error)),
                Ok(element_size) => {
                    let (defs, codec) = view_codec((*element), defs);
                    match jvm_size(
                        element_size,
                        "array element layout exceeds JVM address space"@,
                    ) {
                        Err(error) => (defs, methods, Err(error)),
                        Ok(encoded) => {
                            let code = empty_code(0);
                            let code = emit(code, returns_value(i32_value(encoded)));
                            let size_list = code.instructions;
                            let methods = function_put(
                                "_rustArrayElementSize"@,
                                plain_function(
                                    "_rustArrayElementSize"@,
                                    static_method(params0(), Type::I32),
                                    single_block(size_list),
                                ),
                                methods,
                            );
                            let code = empty_code(0);
                            let code = emit(code, returns_value(codec_value(codec)));
                            let codec_list = code.instructions;
                            let methods = function_put(
                                "_rustArrayElementCodec"@,
                                plain_function(
                                    "_rustArrayElementCodec"@,
                                    static_method(params0(), string_class()),
                                    single_block(codec_list),
                                ),
                                methods,
                            );
                            (defs, methods, Ok(()))
                        },
                    }
                },
            }
        },
        _ => {
            (defs, methods, Ok(()))
        },
    }
}

/// Adds the methods that tell the size and the codec of the elements of an array.
pub fn add_array_methods(
    ty: &RustType,
    defs: &mut Definitions,
    methods: &mut NameMap<DataTypeMethod>,
) -> (r: Result<(), String>)
    requires
        valid(*ty),
    ensures
        (
            final(defs).deep_view(),
            final(methods).deep_view(),
            unit_outcome(r),
        ) == array_methods(*ty, old(defs).deep_view(), old(methods).deep_view()),
    decreases ty, 6nat,
{
    match &ty.kind {
        TypeKind::Array { element, .. } => {
            let element_size = match layout_size_bytes(element) {
                Ok(value) => value,
                Err(error) => return Err(error),
            };
            let codec = pointer_view_codec_operand(element, defs);
            let encoded = match jvm_size_or(
                element_size,
                "array element layout exceeds JVM address space",
            ) {
                Ok(value) => value,
                Err(error) => return Err(error),
            };
            let mut code = Code::new(0);
            code.push(return_value(&i32_operand(encoded)));
            let size_list = code.into_instructions();
            put_function(
                "_rustArrayElementSize",
                make_function(
                    "_rustArrayElementSize",
                    static_signature(&make_params0(), &Type::I32),
                    simple_body(&size_list),
                ),
                methods,
            );
            let mut code = Code::new(0);
            code.push(return_value(&codec_operand(&codec)));
            let codec_list = code.into_instructions();
            put_function(
                "_rustArrayElementCodec",
                make_function(
                    "_rustArrayElementCodec",
                    static_signature(&make_params0(), &java_string()),
                    simple_body(&codec_list),
                ),
                methods,
            );
            Ok(())
        },
        _ => {
            Ok(())
        },
    }
}

/// Whether values of a type can have a codec of their own.
pub open spec fn is_codec_kind(ty: RustType) -> bool {
    match ty.kind {
        TypeKind::Tuple { .. } => true,
        TypeKind::Array { .. } => true,
        TypeKind::Adt(_) => true,
        TypeKind::Closure { .. } => true,
        TypeKind::Coroutine(_) => true,
        TypeKind::FnDef { .. } => true,
        _ => false,
    }
}

/// Whether values of a type can have a codec of their own.
pub fn can_have_codec(ty: &RustType) -> (r: bool)
    ensures
        r == is_codec_kind(*ty),
{
    matches!(
        &ty.kind,
        TypeKind::Tuple { .. } | TypeKind::Array { .. } | TypeKind::Adt(_) | TypeKind::Closure { .. }
        | TypeKind::Coroutine(_) | TypeKind::FnDef { .. }
    )
}

/// Whether the layout of a struct is known, or why not.
pub open spec fn aggregate_check(ty: RustType) -> Result<(), Text> {
    match ty.kind {
        TypeKind::Adt(adt) => match adt.layout {
            Ok(_) => Ok(()),
            Err(reason) => Err(reason@),
        },
        _ => Ok(()),
    }
}

/// Whether the layout of a struct is known, or why not.
pub fn check_aggregate(ty: &RustType) -> (r: Result<(), String>)
    ensures
        unit_outcome(r) == aggregate_check(*ty),
{
    match &ty.kind {
        TypeKind::Adt(adt) => match &adt.layout {
            Ok(_) => Ok(()),
            Err(reason) => Err(reason.clone()),
        },
        _ => Ok(()),
    }
}

/// The class that encodes and decodes values of a type in pointer memory, and the definitions with
/// it; there is none for types that are no aggregates or have no JVM value.
pub open spec fn memory_codec(
    ty: RustType,
    defs: DefinitionsModel,
) -> (DefinitionsModel, Result<Option<Text>, Text>)
    decreases ty, 7nat, 0nat,
{
    if !is_codec_kind(ty) {
        (defs, Ok(None::<Text>))
    } else {
        match ty.kind {
            TypeKind::Coroutine(coroutine) => {
                let (defs, outcome) = coroutine_codec(ty, coroutine, defs);
                match outcome {
                    Err(error) => (defs, Err(error)),
                    Ok(class_name) => {
                        (defs, Ok((Some(class_name))))
                    },
                }
            },
            _ => {
                match exact_bytes(ty) {
                    Err(error) => (defs, Err(error)),
                    Ok(exact) => {
                        match size_of(ty) {
                            Err(error) => (defs, Err(error)),
                            Ok(size) => {
                                let defs = type_defined(ty, defs);
                                if !has_value(lowered(ty)) {
                                    (defs, Ok(None::<Text>))
                                } else if codec_ready(defs, ty.codec_class@) {
                                    (defs, Ok((Some(ty.codec_class@))))
                                } else if is_interface(defs, ty.codec_class@) {
                                    (
                                        defs,
                                        Err(
                                            ("pointer codec helper name "@ + ty.codec_class@ + " is already an interface"@),
                                        ),
                                    )
                                } else {
                                    let defs = codec_started(ty.codec_class@, defs);
                                    match aggregate_check(ty) {
                                        Err(error) => (defs, Err(error)),
                                        Ok(known) => {
                                            let defs = aggregate_defined(ty, defs);
                                            let methods = no_methods();
                                            let (defs, methods, made) = codec_methods(
                                                ty,
                                                size,
                                                defs,
                                                methods,
                                            );
                                            match made {
                                                Err(error) => {
                                                    let defs = undefined(ty.codec_class@, defs);
                                                    (defs, Err(error))
                                                },
                                                Ok(_) => {
                                                    let (
                                                        defs,
                                                        methods,
                                                        outcome,
                                                    ) = array_methods(ty, defs, methods);
                                                    match outcome {
                                                        Err(error) => (defs, Err(error)),
                                                        Ok(_) => {
                                                            let defs = all_added(
                                                                ty.codec_class@,
                                                                methods,
                                                                defs,
                                                            );
                                                            (defs, Ok((Some(ty.codec_class@))))
                                                        },
                                                    }
                                                },
                                            }
                                        },
                                    }
                                }
                            },
                        }
                    },
                }
            },
        }
    }
}

/// Makes sure that the class that encodes and decodes values of a type in pointer memory is
/// defined.
pub fn ensure_pointer_memory_codec(
    ty: &RustType,
    defs: &mut Definitions,
) -> (r: Result<Option<String>, String>)
    requires
        valid(*ty),
    ensures
        (final(defs).deep_view(), outcome_model(r)) == memory_codec(*ty, old(defs).deep_view()),
    decreases ty, 7nat,
{
    if !can_have_codec(ty) {
        Ok(no_text())
    } else {
        match &ty.kind {
            TypeKind::Coroutine(coroutine) => {
                let class_name = match ensure_coroutine_codec(ty, coroutine, defs) {
                    Ok(value) => value,
                    Err(error) => return Err(error),
                };
                Ok(some_text(class_name.as_str()))
            },
            _ => {
                let exact = match exact_bytes_supported(ty) {
                    Ok(value) => value,
                    Err(error) => return Err(error),
                };
                let size = match layout_size_bytes(ty) {
                    Ok(value) => value,
                    Err(error) => return Err(error),
                };
                define_type(ty, defs);
                if !Type::has_jvm_value(&RustType::jvm_type(ty)) {
                    Ok(no_text())
                } else if is_codec_ready(defs, ty.codec_class.as_str()) {
                    Ok(some_text(ty.codec_class.as_str()))
                } else if is_interface_name(defs, ty.codec_class.as_str()) {
                    Err(
                        cat3(
                            "pointer codec helper name ",
                            ty.codec_class.as_str(),
                            " is already an interface",
                        ),
                    )
                } else {
                    start_codec(ty.codec_class.as_str(), defs);
                    let known = match check_aggregate(ty) {
                        Ok(value) => value,
                        Err(error) => return Err(error),
                    };
                    define_aggregate(ty, defs);
                    let mut methods = empty_methods();
                    let made = generate_codec_methods(ty, size, defs, &mut methods);
                    match made {
                        Err(error) => {
                            undefine(ty.codec_class.as_str(), defs);
                            Err(error)
                        },
                        Ok(_) => {
                            let _done = match add_array_methods(ty, defs, &mut methods) {
                                Ok(value) => value,
                                Err(error) => return Err(error),
                            };
                            add_all(ty.codec_class.as_str(), methods, defs);
                            Ok(some_text(ty.codec_class.as_str()))
                        },
                    }
                }
            },
        }
    }
}

} // verus!
