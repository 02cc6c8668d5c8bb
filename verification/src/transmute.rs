//! Conversions between types of one size that keep the bytes of a value.
use crate::abi::{external_forced, force_define_external};
use crate::classes::{class_put, fields_of, put_class};
use crate::code::{
    Code, CodeModel, Definitions, DefinitionsModel, args1, args2, args3, array_new, calls_static,
    calls_virtual, construct, decimal_usize, emit, empty_code, empty_methods, field_read, fresh,
    function_put, i32_operand, i32_value, instance_method, instance_signature, java_string,
    make_args1, make_args2, make_args3, make_function, make_params0, make_params3, make_typed1,
    makes_array, makes_object, no_methods, null_string, null_string_operand, object_class,
    object_type, operand_var, outcome_model, params0, params3, plain_function, pointer_to,
    put_function, reads_field, return_nothing, return_value, returns_nothing, returns_value,
    simple_body, single_block, static_call, static_method, static_signature, string_class,
    text_operand, text_value, typed1, u64_operand, u64_value, unit_operand, unit_value, variable,
    virtual_call,
};
use crate::codec::{
    add_function, codec_operand, codec_value, copy_signature, function_added, get_pointee,
    is_pointer, is_pointer_type, pointee_is_inside, pointee_of, size_as_u64, some_text,
};
use crate::definitions::{
    class_has_method, has_method, is_class, is_class_name, is_interface, is_interface_name,
};
use crate::descriptor::{OBJECT_CLASS, POINTER_CLASS, SLICE_VIEW_CLASS, UTF8_VIEW_CLASS};
use crate::enum_codec::variants_valid;
use crate::layout::{adt_valid, all_valid, exact_bytes, exact_bytes_supported, valid};
use crate::load::{emit_ty_from_union_bytes, loaded};
use crate::lowering::{define_for_name, define_type, defined_for_name, type_defined};
use crate::oomir::{
    Duplicate,
    DataType,
    Instruction,
    InstructionModel,
    Operand,
    OperandModel,
    Signature,
    SignatureModel,
    Text, Type, TypeModel, has_value, same_type,
};
use crate::pointer_codec::{
    builtin_codec, ensure_pointer_memory_codec, fat_codec, fat_pointer_codec_operand,
    memory_codec, pointer_builtin_codec_operand, pointer_view_codec_operand, view_codec,
};
use crate::rust_type::{
    Field, Role, RustType, TypeKind, UintKind, Variant, at_least_one, layout_size_bytes, lowered,
    one_or_more, size_of, struct_tail, tail_of,
};
use crate::store::{emit_ty_to_union_bytes, stored};
use crate::text::{cat3, cat5, decimal_text, same};
use crate::union_class::{jvm_number, jvm_number_of, make_value_params, value_params};
use crate::union_storage::{
    UnionStorage, UnionStorageModel, emit_bits_from_union_bytes, loaded_bits, storage_at_start,
};
use vstd::prelude::*;
use vstd::string::*;

verus! {

/// The method that converts a value.
pub const TRANSMUTE_METHOD: &'static str = "transmute";

/// The method that converts between two types: its class, its name and its signature.
#[derive(Debug)]
pub struct ExactTransmuteHelper {
    pub class_name: String,
    pub method_name: String,
    pub signature: Signature,
}

/// The model of an [`ExactTransmuteHelper`].
pub struct ExactTransmuteHelperModel {
    pub class_name: Text,
    pub method_name: Text,
    pub signature: SignatureModel,
}

impl DeepView for ExactTransmuteHelper {
    type V = ExactTransmuteHelperModel;

    open spec fn deep_view(&self) -> ExactTransmuteHelperModel {
        ExactTransmuteHelperModel {
            class_name: self.class_name@,
            method_name: self.method_name@,
            signature: self.signature.deep_view(),
        }
    }
}

/// The method that converts between two types.
pub open spec fn transmute_helper(
    class_name: Text,
    signature: SignatureModel,
) -> ExactTransmuteHelperModel {
    ExactTransmuteHelperModel { class_name, method_name: TRANSMUTE_METHOD@, signature }
}

fn make_helper(class_name: &str, signature: &Signature) -> (r: ExactTransmuteHelper)
    ensures
        r.deep_view() == transmute_helper(class_name@, signature.deep_view()),
{
    ExactTransmuteHelper {
        class_name: class_name.to_string(),
        method_name: TRANSMUTE_METHOD.to_string(),
        signature: signature.dup(),
    }
}

/// Definitions with the classes of the external types that the fields of a value from one on hold.
pub open spec fn forced_in_fields(
    fields: Seq<Field>,
    from: nat,
    defs: DefinitionsModel,
) -> DefinitionsModel
    decreases fields, 0nat, fields.len() - from,
{
    if from >= fields.len() {
        defs
    } else {
        let item = fields[from as int];
        let defs = forced_in_type(item.ty, defs);
        forced_in_fields(fields, from + 1, defs)
    }
}

/// Defines the classes of the external types that the fields of a value hold.
pub fn force_define_transmute_fields(fields: &Vec<Field>, defs: &mut Definitions)
    requires
        all_valid(fields@),
    ensures
        final(defs).deep_view() == forced_in_fields(fields@, 0, old(defs).deep_view()),
    decreases fields@, 0nat,
{
    let ghost start = forced_in_fields(fields@, 0, defs.deep_view());
    for i in 0..fields.len()
        invariant
            all_valid(fields@),
            forced_in_fields(fields@, i as nat, defs.deep_view()) == start,
    {
        let item = &fields[i];
        proof {
            assert(valid(fields@[i as int].ty));
        }
        force_define_transmute_adts(&item.ty, defs);
    }
}

/// Definitions with the classes of the external types that the variants of a type from one on hold.
pub open spec fn forced_in_variants(
    variants: Seq<Variant>,
    from: nat,
    defs: DefinitionsModel,
) -> DefinitionsModel
    decreases variants, 0nat, variants.len() - from,
{
    if from >= variants.len() {
        defs
    } else {
        let item = variants[from as int];
        let defs = forced_in_fields(item.fields@, 0, defs);
        forced_in_variants(variants, from + 1, defs)
    }
}

/// Defines the classes of the external types that the variants of a type hold.
pub fn force_define_transmute_variants(variants: &Vec<Variant>, defs: &mut Definitions)
    requires
        variants_valid(variants@),
    ensures
        final(defs).deep_view() == forced_in_variants(variants@, 0, old(defs).deep_view()),
    decreases variants@, 0nat,
{
    let ghost start = forced_in_variants(variants@, 0, defs.deep_view());
    for i in 0..variants.len()
        invariant
            variants_valid(variants@),
            forced_in_variants(variants@, i as nat, defs.deep_view()) == start,
    {
        let item = &variants[i];
        proof {
            assert(all_valid(variants@[i as int].fields@));
        }
        force_define_transmute_fields(&item.fields, defs);
    }
}

/// Definitions with the classes of the external types that a value of a type holds.
pub open spec fn forced_in_type(ty: RustType, defs: DefinitionsModel) -> DefinitionsModel
    decreases ty, 5nat, 0nat,
{
    match ty.kind {
        TypeKind::Adt(adt) => {
            let defs = external_forced(ty, adt, defs);
            let defs = forced_in_variants(adt.variants@, 0, defs);
            defs
        },
        TypeKind::Tuple { elements, .. } => {
            let defs = forced_in_fields(elements@, 0, defs);
            defs
        },
        TypeKind::Array { element, .. } => {
            let defs = forced_in_type((*element), defs);
            defs
        },
        TypeKind::Slice(element) => {
            let defs = forced_in_type((*element), defs);
            defs
        },
        TypeKind::Pat(inner) => {
            let defs = forced_in_type((*inner), defs);
            defs
        },
        TypeKind::Closure { captures, .. } => {
            let defs = forced_in_fields(captures@, 0, defs);
            defs
        },
        _ => {
            defs
        },
    }
}

/// Defines the classes of the external types that a value of a type holds.
pub fn force_define_transmute_adts(ty: &RustType, defs: &mut Definitions)
    requires
        valid(*ty),
    ensures
        final(defs).deep_view() == forced_in_type(*ty, old(defs).deep_view()),
    decreases ty, 5nat,
{
    match &ty.kind {
        TypeKind::Adt(adt) => {
            force_define_external(ty, adt, defs);
            proof {
                assert(adt_valid(*adt));
            }
            force_define_transmute_variants(&adt.variants, defs);
        },
        TypeKind::Tuple { elements, .. } => {
            force_define_transmute_fields(elements, defs);
        },
        TypeKind::Array { element, .. } => {
            force_define_transmute_adts(element, defs);
        },
        TypeKind::Slice(element) => {
            force_define_transmute_adts(element, defs);
        },
        TypeKind::Pat(inner) => {
            force_define_transmute_adts(inner, defs);
        },
        TypeKind::Closure { captures, .. } => {
            force_define_transmute_fields(captures, defs);
        },
        _ => {

        },
    }
}

/// The class of a non-null pointer that is not represented like a raw pointer.
pub open spec fn wrapper_class(ty: RustType) -> Option<Text> {
    match ty.kind {
        TypeKind::Adt(adt) => match adt.role {
            Role::NonNull { pointee: Some(pointee) } => if pointee.is_sized {
                None
            } else {
                Some(adt.class_name@)
            },
            _ => None,
        },
        _ => None,
    }
}

fn wrapper_class_of(ty: &RustType) -> (r: Option<String>)
    ensures
        r.deep_view() == wrapper_class(*ty),
{
    match &ty.kind {
        TypeKind::Adt(adt) => match &adt.role {
            Role::NonNull { pointee: Some(pointee) } => if pointee.is_sized {
                None
            } else {
                Some(adt.class_name.clone())
            },
            _ => None,
        },
        _ => None,
    }
}

/// What a pointer that is its own carrier points to.
pub open spec fn bare_pointee(ty: RustType) -> Option<RustType> {
    if wrapper_class(ty) is Some {
        None
    } else {
        pointee_of(ty)
    }
}

fn get_bare_pointee(ty: &RustType) -> (r: Option<&RustType>)
    ensures
        (match r {
            Some(pointee) => Some(*pointee),
            None => None,
        }) == bare_pointee(*ty),
{
    if wrapper_class_of(ty).is_some() {
        None
    } else {
        get_pointee(ty)
    }
}

/// Whether a field is called `pointer` and holds a value, or a plain pointer where that is asked.
pub open spec fn is_pointer_field(field: (Text, TypeModel), plain: bool) -> bool {
    field.0 == "pointer"@ && if plain {
        is_pointer(field.1)
    } else {
        has_value(field.1)
    }
}

/// The type of the first field that holds the pointer of a wrapper.
pub open spec fn pointer_field_in(fields: Seq<(Text, TypeModel)>, plain: bool) -> Option<TypeModel>
    decreases fields.len(),
{
    if fields.len() == 0 {
        None
    } else if is_pointer_field(fields[0], plain) {
        Some(fields[0].1)
    } else {
        pointer_field_in(fields.skip(1), plain)
    }
}

/// The type of the field that holds the pointer of a wrapper class.
pub open spec fn pointer_field(
    defs: DefinitionsModel,
    class_name: Text,
    plain: bool,
) -> Option<TypeModel> {
    if is_class(defs, class_name) {
        pointer_field_in(fields_of(defs, class_name), plain)
    } else {
        None
    }
}

fn find_pointer_field(defs: &Definitions, class_name: &str, plain: bool) -> (r: Option<Type>)
    ensures
        r.deep_view() == pointer_field(defs.deep_view(), class_name@, plain),
{
    match defs.get(class_name) {
        Some(DataType::Class { fields, .. }) => {
            let ghost model = fields.deep_view();
            assert(model.skip(0) =~= model);
            for i in 0..fields.len()
                invariant
                    model == fields.deep_view(),
                    is_class(defs.deep_view(), class_name@),
                    model == fields_of(defs.deep_view(), class_name@),
                    pointer_field_in(model, plain) == pointer_field_in(
                        model.skip(i as int),
                        plain,
                    ),
            {
                assert(model.skip(i as int)[0] == fields@[i as int].deep_view());
                assert(model.skip(i as int).skip(1) =~= model.skip(i + 1));
                let held: bool = if plain {
                    is_pointer_type(&fields[i].1)
                } else {
                    fields[i].1.has_jvm_value()
                };
                if same(fields[i].0.as_str(), "pointer") && held {
                    return Some(fields[i].1.dup());
                }
            }
            None
        },
        _ => None,
    }
}

/// The type of the pointer that a value carries: its own, or that of a field.
pub open spec fn carried_pointer(ty: RustType, defs: DefinitionsModel) -> Option<TypeModel> {
    match wrapper_class(ty) {
        Some(class_name) => pointer_field(defs, class_name, false),
        None => if pointee_of(ty) is Some && has_value(lowered(ty)) {
            Some(lowered(ty))
        } else {
            None
        },
    }
}

fn carried_pointer_type(ty: &RustType, defs: &Definitions) -> (r: Option<Type>)
    ensures
        r.deep_view() == carried_pointer(*ty, defs.deep_view()),
{
    match wrapper_class_of(ty) {
        Some(class_name) => find_pointer_field(defs, class_name.as_str(), false),
        None => {
            let jvm_ty = ty.jvm_type();
            if get_pointee(ty).is_some() && jvm_ty.has_jvm_value() {
                Some(jvm_ty)
            } else {
                None
            }
        },
    }
}

/// Whether two pointers point to the same type: it reads the same and has the same representation,
/// so that different types of one name are told apart by their classes.
pub open spec fn same_pointee(source: RustType, target: RustType) -> bool {
    match (pointee_of(source), pointee_of(target)) {
        (Some(a), Some(b)) => a.text@ == b.text@ && lowered(a) == lowered(b),
        _ => false,
    }
}

fn has_same_pointee(source: &RustType, target: &RustType) -> (r: bool)
    ensures
        r == same_pointee(*source, *target),
{
    match (get_pointee(source), get_pointee(target)) {
        (Some(a), Some(b)) => same(a.text.as_str(), b.text.as_str()) && same_type(
            &a.jvm_type(),
            &b.jvm_type(),
        ),
        _ => false,
    }
}

/// The class that a pointer to a struct with an unsized end points to, and the class of the view of
/// that end.
pub open spec fn tail_view(ty: RustType) -> Option<(Text, Text)> {
    match bare_pointee(ty) {
        Some(pointee) => match lowered(ty) {
            Type::Pointer(target) => match *target {
                Type::Class(target_class) => match tail_of(pointee).kind {
                    TypeKind::Str => Some((target_class, UTF8_VIEW_CLASS@)),
                    TypeKind::Slice(_) => Some((target_class, SLICE_VIEW_CLASS@)),
                    _ => None,
                },
                _ => None,
            },
            _ => None,
        },
        None => None,
    }
}

fn tail_view_of(ty: &RustType) -> (r: Option<(String, String)>)
    ensures
        r.deep_view() == tail_view(*ty),
{
    let jvm_ty = ty.jvm_type();
    match (get_bare_pointee(ty), &jvm_ty) {
        (Some(pointee), Type::Pointer(target)) => {
            let target: &Type = target;
            assert(lowered(*ty) == pointer_to(target.deep_view()));
            match target {
                Type::Class(target_class) => match &struct_tail(pointee).kind {
                    TypeKind::Str => Some((target_class.clone(), UTF8_VIEW_CLASS.to_string())),
                    TypeKind::Slice(_) => Some(
                        (target_class.clone(), SLICE_VIEW_CLASS.to_string()),
                    ),
                    _ => None,
                },
                _ => None,
            }
        },
        _ => None,
    }
}

/// Whether a type is a pointer to a slice of bytes.
pub open spec fn points_to_bytes(ty: RustType) -> bool {
    match bare_pointee(ty) {
        Some(pointee) => match pointee.kind {
            TypeKind::Slice(element) => element.kind == TypeKind::Uint(UintKind::U8),
            _ => false,
        },
        None => false,
    }
}

fn is_byte_slice_pointer(ty: &RustType) -> (r: bool)
    ensures
        r == points_to_bytes(*ty),
{
    match get_bare_pointee(ty) {
        Some(pointee) => match &pointee.kind {
            TypeKind::Slice(element) => matches!(element.kind, TypeKind::Uint(UintKind::U8)),
            _ => false,
        },
        None => false,
    }
}

/// Whether a type is a pointer to text.
pub open spec fn points_to_text(ty: RustType) -> bool {
    match bare_pointee(ty) {
        Some(pointee) => pointee.kind is Str,
        None => false,
    }
}

fn is_text_pointer(ty: &RustType) -> (r: bool)
    ensures
        r == points_to_text(*ty),
{
    match get_bare_pointee(ty) {
        Some(pointee) => matches!(pointee.kind, TypeKind::Str),
        None => false,
    }
}

/// The runtime method that turns a view of bytes into one of text, or the other way round.
pub open spec fn view_method(source: RustType, target: RustType) -> Option<Text> {
    if points_to_bytes(source) && points_to_text(target) {
        Some("fromSlice"@)
    } else if points_to_text(source) && points_to_bytes(target) {
        Some("asSlice"@)
    } else {
        None
    }
}

fn view_method_of(source: &RustType, target: &RustType) -> (r: Option<String>)
    ensures
        r.deep_view() == view_method(*source, *target),
{
    if is_byte_slice_pointer(source) && is_text_pointer(target) {
        Some("fromSlice".to_string())
    } else if is_text_pointer(source) && is_byte_slice_pointer(target) {
        Some("asSlice".to_string())
    } else {
        None
    }
}

/// Whether a number of this type can be an address without a known object behind it.
pub open spec fn is_number(ty: RustType) -> bool {
    match ty.kind {
        TypeKind::Int(_) => true,
        TypeKind::Uint(_) => true,
        TypeKind::Adt(adt) => adt.role is NonZero,
        _ => false,
    }
}

fn is_integer_to_pointer_transmute_source(ty: &RustType) -> (r: bool)
    ensures
        r == is_number(*ty),
{
    match &ty.kind {
        TypeKind::Int(_) | TypeKind::Uint(_) => true,
        TypeKind::Adt(adt) => matches!(adt.role, Role::NonZero),
        _ => false,
    }
}

fn some_operand(operand: Operand) -> (r: Option<Operand>)
    ensures
        r.deep_view() == Some(operand.deep_view()),
{
    Some(operand)
}

fn no_operand() -> (r: Option<Operand>)
    ensures
        r.deep_view() == None::<OperandModel>,
{
    None
}

fn some_code(list: Vec<Instruction>) -> (r: Option<Vec<Instruction>>)
    ensures
        r.deep_view() == Some(list.deep_view()),
{
    Some(list)
}

fn no_code() -> (r: Option<Vec<Instruction>>)
    ensures
        r.deep_view() == None::<Seq<InstructionModel>>,
{
    None
}

/// The pointer that the source carries: the source itself, or a field of it.
#[verifier::opaque]
pub open spec fn source_pointer(
    source: RustType,
    pointer_ty: TypeModel,
    code: CodeModel,
) -> (CodeModel, OperandModel) {
    match wrapper_class(source) {
        Some(class_name) => {
            let code = emit(
                code,
                reads_field(
                    "_source_pointer"@,
                    variable("_1"@, lowered(source)),
                    "pointer"@,
                    pointer_ty,
                    class_name,
                ),
            );
            (code, variable("_source_pointer"@, pointer_ty))
        },
        None => {
            (code, variable("_1"@, lowered(source)))
        },
    }
}

/// Reads the pointer that the source carries.
pub fn emit_source_pointer(source: &RustType, pointer_ty: &Type, code: &mut Code) -> (r: Operand)
    ensures
        (
            final(code).deep_view(),
            r.deep_view(),
        ) == source_pointer(*source, pointer_ty.deep_view(), old(code).deep_view()),
{
    proof {
        reveal(source_pointer);
    }
    match &wrapper_class_of(source) {
        Some(class_name) => {
            code.push(
                field_read(
                    "_source_pointer",
                    &operand_var("_1", &RustType::jvm_type(source)),
                    "pointer",
                    pointer_ty,
                    class_name.as_str(),
                ),
            );
            operand_var("_source_pointer", pointer_ty)
        },
        None => {
            operand_var("_1", &RustType::jvm_type(source))
        },
    }
}

/// The pointer with the type of the target: as it is, with another end, or with another view.
#[verifier::opaque]
pub open spec fn retyped_pointer(
    source: RustType,
    target: RustType,
    pointer: OperandModel,
    source_ty: TypeModel,
    target_ty: TypeModel,
    code: CodeModel,
    defs: DefinitionsModel,
) -> (CodeModel, DefinitionsModel, Result<Option<OperandModel>, Text>) {
    if same_pointee(source, target) {
        (code, defs, Ok((Some(pointer))))
    } else {
        match tail_view(target) {
            Some(view) => {
                if is_pointer(source_ty) && is_pointer(target_ty) {
                    let dest = "_retargeted_struct_tail_pointer"@;
                    let code = emit(
                        code,
                        calls_static(
                            dest,
                            POINTER_CLASS@,
                            "retargetStructTail"@,
                            static_method(
                                params3(
                                    "pointer"@,
                                    source_ty,
                                    "target_class"@,
                                    string_class(),
                                    "tail_view_class"@,
                                    string_class(),
                                ),
                                target_ty,
                            ),
                            args3(pointer, text_value(view.0), text_value(view.1)),
                        ),
                    );
                    (code, defs, Ok((Some(variable(dest, target_ty)))))
                } else {
                    (code, defs, Ok(None::<OperandModel>))
                }
            },
            None => {
                if is_pointer(source_ty) && (source_ty == target_ty) {
                    (code, defs, Ok((Some(pointer))))
                } else if is_pointer(source_ty) && is_pointer(target_ty) {
                    match pointee_of(target) {
                        Some(pointee) => {
                            match size_of(pointee) {
                                Err(error) => (code, defs, Err(error)),
                                Ok(size) => {
                                    let (defs, codec) = view_codec(pointee, defs);
                                    let code = emit(
                                        code,
                                        calls_virtual(
                                            "_retyped_pointer"@,
                                            POINTER_CLASS@,
                                            "retype"@,
                                            instance_method(
                                                params3(
                                                    "self"@,
                                                    source_ty,
                                                    "view_size"@,
                                                    Type::U64,
                                                    "view_codec"@,
                                                    string_class(),
                                                ),
                                                target_ty,
                                            ),
                                            args2(u64_value(((size as u64))), codec_value(codec)),
                                            pointer,
                                        ),
                                    );
                                    (
                                        code,
                                        defs,
                                        Ok((Some(variable("_retyped_pointer"@, target_ty)))),
                                    )
                                },
                            }
                        },
                        None => {
                            (code, defs, Ok(None::<OperandModel>))
                        },
                    }
                } else {
                    (code, defs, Ok(None::<OperandModel>))
                }
            },
        }
    }
}

/// Gives a pointer the type of the target, if that can be done without its bytes.
pub fn emit_retyped_pointer(
    source: &RustType,
    target: &RustType,
    pointer: &Operand,
    source_ty: &Type,
    target_ty: &Type,
    code: &mut Code,
    defs: &mut Definitions,
) -> (r: Result<Option<Operand>, String>)
    requires
        valid(*target),
    ensures
        (final(code).deep_view(), final(defs).deep_view(), outcome_model(r)) == retyped_pointer(
            *source,
            *target,
            pointer.deep_view(),
            source_ty.deep_view(),
            target_ty.deep_view(),
            old(code).deep_view(),
            old(defs).deep_view(),
        ),
{
    proof {
        reveal(retyped_pointer);
    }
    if has_same_pointee(source, target) {
        Ok(some_operand(pointer.dup()))
    } else {
        match &tail_view_of(target) {
            Some(view) => {
                if is_pointer_type(source_ty) && is_pointer_type(target_ty) {
                    let dest = "_retargeted_struct_tail_pointer".to_string();
                    code.push(
                        static_call(
                            dest.as_str(),
                            POINTER_CLASS,
                            "retargetStructTail",
                            &static_signature(
                                &make_params3(
                                    "pointer",
                                    source_ty,
                                    "target_class",
                                    &java_string(),
                                    "tail_view_class",
                                    &java_string(),
                                ),
                                target_ty,
                            ),
                            &make_args3(
                                pointer,
                                &text_operand(view.0.as_str()),
                                &text_operand(view.1.as_str()),
                            ),
                        ),
                    );
                    Ok(some_operand(operand_var(dest.as_str(), target_ty)))
                } else {
                    Ok(no_operand())
                }
            },
            None => {
                if is_pointer_type(source_ty) && same_type(source_ty, target_ty) {
                    Ok(some_operand(pointer.dup()))
                } else if is_pointer_type(source_ty) && is_pointer_type(target_ty) {
                    match &get_pointee(target) {
                        Some(pointee) => {
                            proof {
                                pointee_is_inside(*target);
                            }
                            let size = match layout_size_bytes(pointee) {
                                Ok(value) => value,
                                Err(error) => return Err(error),
                            };
                            let codec = pointer_view_codec_operand(pointee, defs);
                            code.push(
                                virtual_call(
                                    "_retyped_pointer",
                                    POINTER_CLASS,
                                    "retype",
                                    &instance_signature(
                                        &make_params3(
                                            "self",
                                            source_ty,
                                            "view_size",
                                            &Type::U64,
                                            "view_codec",
                                            &java_string(),
                                        ),
                                        target_ty,
                                    ),
                                    &make_args2(
                                        &u64_operand(size_as_u64(size)),
                                        &codec_operand(&codec),
                                    ),
                                    pointer,
                                ),
                            );
                            Ok(some_operand(operand_var("_retyped_pointer", target_ty)))
                        },
                        None => {
                            Ok(no_operand())
                        },
                    }
                } else {
                    Ok(no_operand())
                }
            },
        }
    }
}

/// The end of a conversion of pointers: the pointer, or a wrapper around it.
#[verifier::opaque]
pub open spec fn pointer_returned(
    target: RustType,
    pointer: OperandModel,
    pointer_ty: TypeModel,
    code: CodeModel,
) -> CodeModel {
    match wrapper_class(target) {
        Some(class_name) => {
            let code = emit(
                code,
                makes_object("_pointer_wrapper"@, class_name, typed1(pointer, pointer_ty)),
            );
            let code = emit(code, returns_value(variable("_pointer_wrapper"@, lowered(target))));
            code
        },
        None => {
            let code = emit(code, returns_value(pointer));
            code
        },
    }
}

/// Returns a pointer, or a wrapper around it.
pub fn emit_pointer_return(
    target: &RustType,
    pointer: &Operand,
    pointer_ty: &Type,
    code: &mut Code,
)
    ensures
        final(code).deep_view() == pointer_returned(
            *target,
            pointer.deep_view(),
            pointer_ty.deep_view(),
            old(code).deep_view(),
        ),
{
    proof {
        reveal(pointer_returned);
    }
    match &wrapper_class_of(target) {
        Some(class_name) => {
            code.push(
                construct(
                    "_pointer_wrapper",
                    class_name.as_str(),
                    &make_typed1(pointer, pointer_ty),
                ),
            );
            code.push(return_value(&operand_var("_pointer_wrapper", &RustType::jvm_type(target))));
        },
        None => {
            code.push(return_value(pointer));
        },
    }
}

/// The conversion of a pointer that keeps the pointer itself, if source and target carry one.
#[verifier::opaque]
pub open spec fn direct_conversion(
    source: RustType,
    target: RustType,
    defs: DefinitionsModel,
) -> (DefinitionsModel, Result<Option<Seq<InstructionModel>>, Text>) {
    match carried_pointer(source, defs) {
        Some(source_ty) => {
            match carried_pointer(target, defs) {
                Some(target_ty) => {
                    let code = empty_code(0);
                    let (code, pointer) = source_pointer(source, source_ty, code);
                    let (code, defs, outcome) = retyped_pointer(
                        source,
                        target,
                        pointer,
                        source_ty,
                        target_ty,
                        code,
                        defs,
                    );
                    match outcome {
                        Err(error) => (defs, Err(error)),
                        Ok(retyped) => {
                            match retyped {
                                Some(result) => {
                                    let code = pointer_returned(target, result, target_ty, code);
                                    let list = code.instructions;
                                    (defs, Ok((Some(list))))
                                },
                                None => {
                                    (defs, Ok(None::<Seq<InstructionModel>>))
                                },
                            }
                        },
                    }
                },
                None => {
                    (defs, Ok(None::<Seq<InstructionModel>>))
                },
            }
        },
        None => {
            (defs, Ok(None::<Seq<InstructionModel>>))
        },
    }
}

/// Makes the conversion of a pointer that keeps the pointer itself, if there is one.
pub fn emit_direct_conversion(
    source: &RustType,
    target: &RustType,
    defs: &mut Definitions,
) -> (r: Result<Option<Vec<Instruction>>, String>)
    requires
        valid(*target),
    ensures
        (
            final(defs).deep_view(),
            outcome_model(r),
        ) == direct_conversion(*source, *target, old(defs).deep_view()),
{
    proof {
        reveal(direct_conversion);
    }
    match &carried_pointer_type(source, defs) {
        Some(source_ty) => {
            match &carried_pointer_type(target, defs) {
                Some(target_ty) => {
                    let mut code = Code::new(0);
                    let pointer = emit_source_pointer(source, source_ty, &mut code);
                    let retyped = match emit_retyped_pointer(
                        source,
                        target,
                        &pointer,
                        source_ty,
                        target_ty,
                        &mut code,
                        defs,
                    ) {
                        Ok(value) => value,
                        Err(error) => return Err(error),
                    };
                    match &retyped {
                        Some(result) => {
                            emit_pointer_return(target, result, target_ty, &mut code);
                            let list = code.into_instructions();
                            Ok(some_code(list))
                        },
                        None => {
                            Ok(no_code())
                        },
                    }
                },
                None => {
                    Ok(no_code())
                },
            }
        },
        None => {
            Ok(no_code())
        },
    }
}

/// The type of the plain pointer that a value carries.
pub open spec fn plain_pointer(ty: RustType, defs: DefinitionsModel) -> Option<TypeModel> {
    match wrapper_class(ty) {
        Some(class_name) => pointer_field(defs, class_name, true),
        None => if pointee_of(ty) is Some && is_pointer(lowered(ty)) {
            Some(lowered(ty))
        } else {
            None
        },
    }
}

fn plain_pointer_type(ty: &RustType, defs: &Definitions) -> (r: Option<Type>)
    ensures
        r.deep_view() == plain_pointer(*ty, defs.deep_view()),
{
    match wrapper_class_of(ty) {
        Some(class_name) => find_pointer_field(defs, class_name.as_str(), true),
        None => {
            let jvm_ty = ty.jvm_type();
            if get_pointee(ty).is_some() && is_pointer_type(&jvm_ty) {
                Some(jvm_ty)
            } else {
                None
            }
        },
    }
}

/// A pointer with the address that the bytes hold, without a known object behind it.
#[verifier::opaque]
pub open spec fn unprovenanced_pointer(
    target: RustType,
    storage: UnionStorageModel,
    code: CodeModel,
    defs: DefinitionsModel,
) -> (CodeModel, DefinitionsModel, Result<Option<OperandModel>, Text>) {
    match plain_pointer(target, defs) {
        Some(pointer_ty) => {
            match pointee_of(target) {
                Some(pointee) => {
                    match size_of(target) {
                        Err(error) => (code, defs, Err(error)),
                        Ok(size) => {
                            let (code, address) = loaded_bits(
                                Type::U64,
                                size as nat,
                                storage,
                                0,
                                code,
                            );
                            let (code, dest) = fresh(code, "unprovenanced_pointer"@);
                            match size_of(pointee) {
                                Err(error) => (code, defs, Err(error)),
                                Ok(view_size) => {
                                    let (defs, codec) = view_codec(pointee, defs);
                                    let code = emit(
                                        code,
                                        calls_static(
                                            dest,
                                            POINTER_CLASS@,
                                            "fromUnprovenancedAddress"@,
                                            static_method(
                                                params3(
                                                    "address"@,
                                                    Type::U64,
                                                    "view_size"@,
                                                    Type::U64,
                                                    "view_codec"@,
                                                    string_class(),
                                                ),
                                                pointer_ty,
                                            ),
                                            args3(
                                                address,
                                                u64_value(((view_size as u64))),
                                                codec_value(codec),
                                            ),
                                        ),
                                    );
                                    match wrapper_class(target) {
                                        Some(class_name) => {
                                            let (code, wrapped) = fresh(
                                                code,
                                                "unprovenanced_pointer_wrapper"@,
                                            );
                                            let code = emit(
                                                code,
                                                makes_object(
                                                    wrapped,
                                                    class_name,
                                                    typed1(variable(dest, pointer_ty), pointer_ty),
                                                ),
                                            );
                                            (
                                                code,
                                                defs,
                                                Ok((Some(variable(wrapped, lowered(target))))),
                                            )
                                        },
                                        None => {
                                            (code, defs, Ok((Some(variable(dest, pointer_ty)))))
                                        },
                                    }
                                },
                            }
                        },
                    }
                },
                None => {
                    (code, defs, Ok(None::<OperandModel>))
                },
            }
        },
        None => {
            (code, defs, Ok(None::<OperandModel>))
        },
    }
}

/// Reads a pointer without a known object behind it, if the target carries a plain pointer.
pub fn emit_unprovenanced_pointer_from_union_bytes(
    target: &RustType,
    storage: &UnionStorage,
    code: &mut Code,
    defs: &mut Definitions,
) -> (r: Result<Option<Operand>, String>)
    requires
        valid(*target),
    ensures
        (
            final(code).deep_view(),
            final(defs).deep_view(),
            outcome_model(r),
        ) == unprovenanced_pointer(
            *target,
            storage.deep_view(),
            old(code).deep_view(),
            old(defs).deep_view(),
        ),
{
    proof {
        reveal(unprovenanced_pointer);
    }
    match &plain_pointer_type(target, defs) {
        Some(pointer_ty) => {
            match &get_pointee(target) {
                Some(pointee) => {
                    proof {
                        pointee_is_inside(*target);
                    }
                    let size = match layout_size_bytes(target) {
                        Ok(value) => value,
                        Err(error) => return Err(error),
                    };
                    let address = emit_bits_from_union_bytes(&Type::U64, size, storage, 0, code);
                    let dest = code.fresh("unprovenanced_pointer");
                    let view_size = match layout_size_bytes(pointee) {
                        Ok(value) => value,
                        Err(error) => return Err(error),
                    };
                    let codec = pointer_view_codec_operand(pointee, defs);
                    code.push(
                        static_call(
                            dest.as_str(),
                            POINTER_CLASS,
                            "fromUnprovenancedAddress",
                            &static_signature(
                                &make_params3(
                                    "address",
                                    &Type::U64,
                                    "view_size",
                                    &Type::U64,
                                    "view_codec",
                                    &java_string(),
                                ),
                                pointer_ty,
                            ),
                            &make_args3(
                                &address,
                                &u64_operand(size_as_u64(view_size)),
                                &codec_operand(&codec),
                            ),
                        ),
                    );
                    match &wrapper_class_of(target) {
                        Some(class_name) => {
                            let wrapped = code.fresh("unprovenanced_pointer_wrapper");
                            code.push(
                                construct(
                                    wrapped.as_str(),
                                    class_name.as_str(),
                                    &make_typed1(
                                        &operand_var(dest.as_str(), pointer_ty),
                                        pointer_ty,
                                    ),
                                ),
                            );
                            Ok(
                                some_operand(
                                    operand_var(wrapped.as_str(), &RustType::jvm_type(target)),
                                ),
                            )
                        },
                        None => {
                            Ok(some_operand(operand_var(dest.as_str(), pointer_ty)))
                        },
                    }
                },
                None => {
                    Ok(no_operand())
                },
            }
        },
        None => {
            Ok(no_operand())
        },
    }
}

/// The pointer that a number becomes, if the source is a number.
#[verifier::opaque]
pub open spec fn number_pointer(
    source: RustType,
    target: RustType,
    storage: UnionStorageModel,
    code: CodeModel,
    defs: DefinitionsModel,
) -> (CodeModel, DefinitionsModel, Result<Option<OperandModel>, Text>) {
    if is_number(source) {
        unprovenanced_pointer(target, storage, code, defs)
    } else {
        (code, defs, Ok(None::<OperandModel>))
    }
}

/// Reads the pointer that a number becomes.
pub fn emit_number_pointer(
    source: &RustType,
    target: &RustType,
    storage: &UnionStorage,
    code: &mut Code,
    defs: &mut Definitions,
) -> (r: Result<Option<Operand>, String>)
    requires
        valid(*target),
    ensures
        (final(code).deep_view(), final(defs).deep_view(), outcome_model(r)) == number_pointer(
            *source,
            *target,
            storage.deep_view(),
            old(code).deep_view(),
            old(defs).deep_view(),
        ),
{
    proof {
        reveal(number_pointer);
    }
    if is_integer_to_pointer_transmute_source(source) {
        emit_unprovenanced_pointer_from_union_bytes(target, storage, code, defs)
    } else {
        Ok(no_operand())
    }
}

/// The value of the target, read from the bytes of the source.
#[verifier::opaque]
pub open spec fn target_value(
    source: RustType,
    target: RustType,
    storage: UnionStorageModel,
    code: CodeModel,
    defs: DefinitionsModel,
) -> (CodeModel, DefinitionsModel, Result<OperandModel, Text>) {
    let (code, defs, outcome) = number_pointer(source, target, storage, code, defs);
    match outcome {
        Err(error) => (code, defs, Err(error)),
        Ok(pointer) => {
            match pointer {
                Some(result) => {
                    (code, defs, Ok(result))
                },
                None => {
                    loaded(target, storage, 0, code, defs)
                },
            }
        },
    }
}

/// Reads the value of the target from the bytes of the source.
pub fn emit_target_value(
    source: &RustType,
    target: &RustType,
    storage: &UnionStorage,
    code: &mut Code,
    defs: &mut Definitions,
) -> (r: Result<Operand, String>)
    requires
        valid(*target),
    ensures
        (final(code).deep_view(), final(defs).deep_view(), outcome_model(r)) == target_value(
            *source,
            *target,
            storage.deep_view(),
            old(code).deep_view(),
            old(defs).deep_view(),
        ),
{
    proof {
        reveal(target_value);
    }
    let pointer = match emit_number_pointer(source, target, storage, code, defs) {
        Ok(value) => value,
        Err(error) => return Err(error),
    };
    match &pointer {
        Some(result) => {
            Ok(result.dup())
        },
        None => {
            emit_ty_from_union_bytes(target, storage, 0, code, defs)
        },
    }
}

/// The source of a conversion; one without JVM value is the unit value.
pub open spec fn source_value(source: RustType) -> OperandModel {
    if has_value(lowered(source)) {
        variable("_1"@, lowered(source))
    } else {
        unit_value()
    }
}

fn source_value_of(source: &RustType) -> (r: Operand)
    ensures
        r.deep_view() == source_value(*source),
{
    let jvm_ty = source.jvm_type();
    if jvm_ty.has_jvm_value() {
        operand_var("_1", &jvm_ty)
    } else {
        unit_operand()
    }
}

/// The conversion through bytes: the source is written into storage of its size, and the target is
/// read from it.
#[verifier::opaque]
pub open spec fn byte_conversion(
    source: RustType,
    target: RustType,
    size: usize,
    defs: DefinitionsModel,
) -> (DefinitionsModel, Result<Seq<InstructionModel>, Text>) {
    let code = empty_code(0);
    let code = emit(code, makes_array("_exact_bytes"@, Type::I8, i32_value(jvm_number(size))));
    let code = emit(
        code,
        makes_array("_exact_objects"@, object_class(), i32_value(jvm_number(at_least_one(size)))),
    );
    let storage = storage_at_start("_exact_bytes"@, "_exact_objects"@);
    let (code, defs, outcome) = stored(source, source_value(source), storage, 0, code, defs);
    match outcome {
        Err(error) => (defs, Err(error)),
        Ok(_) => {
            let (code, defs, outcome) = target_value(source, target, storage, code, defs);
            match outcome {
                Err(error) => (defs, Err(error)),
                Ok(result) => {
                    let code = conversion_end(target, result, code);
                    let list = code.instructions;
                    (defs, Ok(list))
                },
            }
        },
    }
}

/// Makes the conversion through bytes.
pub fn emit_byte_conversion(
    source: &RustType,
    target: &RustType,
    size: usize,
    defs: &mut Definitions,
) -> (r: Result<Vec<Instruction>, String>)
    requires
        valid(*source), valid(*target),
    ensures
        (
            final(defs).deep_view(),
            outcome_model(r),
        ) == byte_conversion(*source, *target, size, old(defs).deep_view()),
{
    proof {
        reveal(byte_conversion);
    }
    let mut code = Code::new(0);
    code.push(array_new("_exact_bytes", &Type::I8, &i32_operand(jvm_number_of(size))));
    code.push(
        array_new("_exact_objects", &object_type(), &i32_operand(jvm_number_of(one_or_more(size)))),
    );
    let storage = UnionStorage::at_start("_exact_bytes", "_exact_objects");
    let _done = match emit_ty_to_union_bytes(
        source,
        &source_value_of(source),
        &storage,
        0,
        &mut code,
        defs,
    ) {
        Ok(value) => value,
        Err(error) => return Err(error),
    };
    let result = match emit_target_value(source, target, &storage, &mut code, defs) {
        Ok(value) => value,
        Err(error) => return Err(error),
    };
    emit_conversion_end(target, &result, &mut code);
    let list = code.into_instructions();
    Ok(list)
}

/// The end of a conversion: the value, unless it has no JVM value.
#[verifier::opaque]
pub open spec fn conversion_end(
    target: RustType,
    result: OperandModel,
    code: CodeModel,
) -> CodeModel {
    if has_value(lowered(target)) {
        let code = emit(code, returns_value(result));
        code
    } else {
        let code = emit(code, returns_nothing());
        code
    }
}

/// Returns the converted value.
pub fn emit_conversion_end(target: &RustType, result: &Operand, code: &mut Code)
    ensures
        final(code).deep_view() == conversion_end(
            *target,
            result.deep_view(),
            old(code).deep_view(),
        ),
{
    proof {
        reveal(conversion_end);
    }
    if Type::has_jvm_value(&RustType::jvm_type(target)) {
        code.push(return_value(result));
    } else {
        code.push(return_nothing());
    }
}

/// The conversion of a view through a runtime method.
#[verifier::opaque]
pub open spec fn view_conversion(
    method_name: Text,
    source: RustType,
    target: RustType,
    signature: SignatureModel,
) -> Seq<InstructionModel> {
    let code = empty_code(0);
    let code = emit(
        code,
        calls_static(
            "_view_result"@,
            UTF8_VIEW_CLASS@,
            method_name,
            signature,
            args1(variable("_1"@, lowered(source))),
        ),
    );
    let code = emit(code, returns_value(variable("_view_result"@, lowered(target))));
    let list = code.instructions;
    list
}

/// Makes the conversion of a view through a runtime method.
pub fn make_view_conversion(
    method_name: &str,
    source: &RustType,
    target: &RustType,
    signature: &Signature,
) -> (r: Vec<Instruction>)
    ensures
        r.deep_view() == view_conversion(method_name@, *source, *target, signature.deep_view()),
{
    proof {
        reveal(view_conversion);
    }
    let mut code = Code::new(0);
    code.push(
        static_call(
            "_view_result",
            UTF8_VIEW_CLASS,
            method_name,
            signature,
            &make_args1(&operand_var("_1", &RustType::jvm_type(source))),
        ),
    );
    code.push(return_value(&operand_var("_view_result", &RustType::jvm_type(target))));
    let list = code.into_instructions();
    list
}

/// The code of a conversion: of pointers as they are, of views through the runtime, and of all
/// other
/// values through bytes.
#[verifier::opaque]
pub open spec fn conversion(
    source: RustType,
    target: RustType,
    size: usize,
    signature: SignatureModel,
    defs: DefinitionsModel,
) -> (DefinitionsModel, Result<Seq<InstructionModel>, Text>) {
    let (defs, outcome) = direct_conversion(source, target, defs);
    match outcome {
        Err(error) => (defs, Err(error)),
        Ok(direct) => {
            match direct {
                Some(list) => {
                    (defs, Ok(list))
                },
                None => {
                    match view_method(source, target) {
                        Some(method_name) => {
                            (defs, Ok(view_conversion(method_name, source, target, signature)))
                        },
                        None => {
                            byte_conversion(source, target, size, defs)
                        },
                    }
                },
            }
        },
    }
}

/// Makes the code of a conversion.
pub fn emit_conversion(
    source: &RustType,
    target: &RustType,
    size: usize,
    signature: &Signature,
    defs: &mut Definitions,
) -> (r: Result<Vec<Instruction>, String>)
    requires
        valid(*source), valid(*target),
    ensures
        (
            final(defs).deep_view(),
            outcome_model(r),
        ) == conversion(*source, *target, size, signature.deep_view(), old(defs).deep_view()),
{
    proof {
        reveal(conversion);
    }
    let direct = match emit_direct_conversion(source, target, defs) {
        Ok(value) => value,
        Err(error) => return Err(error),
    };
    match &direct {
        Some(list) => {
            Ok(list.dup())
        },
        None => {
            match &view_method_of(source, target) {
                Some(method_name) => {
                    Ok(make_view_conversion(method_name.as_str(), source, target, signature))
                },
                None => {
                    emit_byte_conversion(source, target, size, defs)
                },
            }
        },
    }
}

/// The signature of a conversion.
pub open spec fn conversion_signature(source: RustType, target: RustType) -> SignatureModel {
    static_method(value_params(lowered(source)), lowered(target))
}

fn conversion_signature_of(source: &RustType, target: &RustType) -> (r: Signature)
    ensures
        r.deep_view() == conversion_signature(*source, *target),
{
    static_signature(&make_value_params(&source.jvm_type()), &target.jvm_type())
}

/// Definitions with the method of a conversion, or why its class cannot have it.
#[verifier::opaque]
pub open spec fn conversion_installed(
    class_name: Text,
    signature: SignatureModel,
    list: Seq<InstructionModel>,
    defs: DefinitionsModel,
) -> (DefinitionsModel, Result<ExactTransmuteHelperModel, Text>) {
    if is_class(defs, class_name) {
        let defs = function_added(
            class_name,
            TRANSMUTE_METHOD@,
            plain_function(TRANSMUTE_METHOD@, (signature), single_block(list)),
            defs,
        );
        (defs, Ok(transmute_helper(class_name, signature)))
    } else if is_interface(defs, class_name) {
        (defs, Err(("exact transmute helper name "@ + class_name + " is already an interface"@)))
    } else {
        let methods = no_methods();
        let methods = function_put(
            TRANSMUTE_METHOD@,
            plain_function(TRANSMUTE_METHOD@, (signature), single_block(list)),
            methods,
        );
        let defs = class_put(class_name, params0(), methods, (Some(OBJECT_CLASS@)), defs);
        (defs, Ok(transmute_helper(class_name, signature)))
    }
}

/// Defines the method of a conversion.
pub fn install_conversion(
    class_name: &str,
    signature: &Signature,
    list: &Vec<Instruction>,
    defs: &mut Definitions,
) -> (r: Result<ExactTransmuteHelper, String>)
    ensures
        (final(defs).deep_view(), outcome_model(r)) == conversion_installed(
            class_name@,
            signature.deep_view(),
            list.deep_view(),
            old(defs).deep_view(),
        ),
{
    proof {
        reveal(conversion_installed);
    }
    if is_class_name(defs, class_name) {
        add_function(
            class_name,
            TRANSMUTE_METHOD,
            make_function(TRANSMUTE_METHOD, copy_signature(signature), simple_body(list)),
            defs,
        );
        Ok(make_helper(class_name, signature))
    } else if is_interface_name(defs, class_name) {
        Err(cat3("exact transmute helper name ", class_name, " is already an interface"))
    } else {
        let mut methods = empty_methods();
        put_function(
            TRANSMUTE_METHOD,
            make_function(TRANSMUTE_METHOD, copy_signature(signature), simple_body(list)),
            &mut methods,
        );
        put_class(class_name, make_params0(), methods, &some_text(OBJECT_CLASS), defs);
        Ok(make_helper(class_name, signature))
    }
}

/// The message about types of different sizes.
pub open spec fn size_mismatch(
    source: RustType,
    source_size: usize,
    target: RustType,
    target_size: usize,
) -> Text {
    "transmute layout sizes differ: "@ + source.text@ + " is "@ + decimal_text(source_size as nat)
        + " bytes, "@ + target.text@ + " is "@ + decimal_text(target_size as nat) + " bytes"@
}

fn size_mismatch_text(
    source: &RustType,
    source_size: usize,
    target: &RustType,
    target_size: usize,
) -> (r: String)
    ensures
        r@ == size_mismatch(*source, source_size, *target, target_size),
{
    let start = cat5(
        "transmute layout sizes differ: ",
        source.text.as_str(),
        " is ",
        decimal_usize(source_size).as_str(),
        " bytes, ",
    );
    cat5(
        start.as_str(),
        target.text.as_str(),
        " is ",
        decimal_usize(target_size).as_str(),
        " bytes",
    )
}

/// Definitions with the method that converts between two types, and where it stands: types of
/// different sizes have none, nor have types whose bytes are not known.
#[verifier::opaque]
pub open spec fn exact_transmute(
    source: RustType,
    target: RustType,
    class_name: Text,
    defs: DefinitionsModel,
) -> (DefinitionsModel, Result<ExactTransmuteHelperModel, Text>) {
    match size_of(source) {
        Err(error) => (defs, Err(error)),
        Ok(source_size) => {
            match size_of(target) {
                Err(error) => (defs, Err(error)),
                Ok(target_size) => {
                    if source_size != target_size {
                        (defs, Err(size_mismatch(source, source_size, target, target_size)))
                    } else {
                        match exact_bytes(source) {
                            Err(error) => (defs, Err(error)),
                            Ok(source_bytes) => {
                                match exact_bytes(target) {
                                    Err(error) => (defs, Err(error)),
                                    Ok(target_bytes) => {
                                        let defs = forced_in_type(source, defs);
                                        let defs = forced_in_type(target, defs);
                                        let defs = type_defined(source, defs);
                                        let defs = type_defined(target, defs);
                                        let defs = defined_for_name(source, defs);
                                        let defs = defined_for_name(target, defs);
                                        let signature = conversion_signature(source, target);
                                        if class_has_method(defs, class_name, TRANSMUTE_METHOD@) {
                                            (defs, Ok(transmute_helper(class_name, signature)))
                                        } else {
                                            let (defs, outcome) = conversion(
                                                source,
                                                target,
                                                source_size,
                                                signature,
                                                defs,
                                            );
                                            match outcome {
                                                Err(error) => (defs, Err(error)),
                                                Ok(list) => {
                                                    conversion_installed(
                                                        class_name,
                                                        signature,
                                                        list,
                                                        defs,
                                                    )
                                                },
                                            }
                                        }
                                    },
                                }
                            },
                        }
                    }
                },
            }
        },
    }
}

/// Makes sure that there is a method that converts between two types; the class that holds it is
/// given.
pub fn ensure_exact_transmute_helper(
    source: &RustType,
    target: &RustType,
    class_name: &str,
    defs: &mut Definitions,
) -> (r: Result<ExactTransmuteHelper, String>)
    requires
        valid(*source), valid(*target),
    ensures
        (
            final(defs).deep_view(),
            outcome_model(r),
        ) == exact_transmute(*source, *target, class_name@, old(defs).deep_view()),
{
    proof {
        reveal(exact_transmute);
    }
    let source_size = match layout_size_bytes(source) {
        Ok(value) => value,
        Err(error) => return Err(error),
    };
    let target_size = match layout_size_bytes(target) {
        Ok(value) => value,
        Err(error) => return Err(error),
    };
    if source_size != target_size {
        Err(size_mismatch_text(source, source_size, target, target_size))
    } else {
        let source_bytes = match exact_bytes_supported(source) {
            Ok(value) => value,
            Err(error) => return Err(error),
        };
        let target_bytes = match exact_bytes_supported(target) {
            Ok(value) => value,
            Err(error) => return Err(error),
        };
        force_define_transmute_adts(source, defs);
        force_define_transmute_adts(target, defs);
        define_type(source, defs);
        define_type(target, defs);
        define_for_name(source, defs);
        define_for_name(target, defs);
        let signature = conversion_signature_of(source, target);
        if has_method(defs, class_name, TRANSMUTE_METHOD) {
            Ok(make_helper(class_name, &signature))
        } else {
            let list = match emit_conversion(source, target, source_size, &signature, defs) {
                Ok(value) => value,
                Err(error) => return Err(error),
            };
            install_conversion(class_name, &signature, &list, defs)
        }
    }
}

/// The codec of values in pointer memory: one of the built-in ones, or a class; without one, none.
#[verifier::opaque]
pub open spec fn memory_codec_text(
    ty: RustType,
    defs: DefinitionsModel,
) -> (DefinitionsModel, OperandModel) {
    let (defs, fat) = fat_codec(ty, defs);
    match fat {
        Some(codec) => {
            (defs, text_value(codec))
        },
        None => {
            let (defs, builtin) = builtin_codec(ty, defs);
            match builtin {
                Some(codec) => {
                    (defs, text_value(codec))
                },
                None => {
                    let (defs, outcome) = memory_codec(ty, defs);
                    match outcome {
                        Ok(class_name) => {
                            (defs, codec_value(class_name))
                        },
                        Err(_) => {
                            (defs, null_string())
                        },
                    }
                },
            }
        },
    }
}

/// The codec of values in pointer memory.
pub fn pointer_memory_codec_operand(ty: &RustType, defs: &mut Definitions) -> (r: Operand)
    requires
        valid(*ty),
    ensures
        (final(defs).deep_view(), r.deep_view()) == memory_codec_text(*ty, old(defs).deep_view()),
{
    proof {
        reveal(memory_codec_text);
    }
    let fat = fat_pointer_codec_operand(ty, defs);
    match &fat {
        Some(codec) => {
            text_operand(codec.as_str())
        },
        None => {
            let builtin = pointer_builtin_codec_operand(ty, defs);
            match &builtin {
                Some(codec) => {
                    text_operand(codec.as_str())
                },
                None => {
                    let outcome = ensure_pointer_memory_codec(ty, defs);
                    match outcome {
                        Ok(class_name) => {
                            codec_operand(&class_name)
                        },
                        Err(_) => {
                            null_string_operand()
                        },
                    }
                },
            }
        },
    }
}

} // verus!
