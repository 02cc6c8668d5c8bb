//! Names, sizes and signatures that the codecs of Rust values share.
use crate::carrier::{default_constant, default_of};
use crate::code::{
    Definitions, DefinitionsModel, byte_array, byte_array_type, class, class_type,
    constant_operand, constant_value, decimal_usize, instance_method, instance_signature,
    java_string, make_params3, make_params4, make_params5, null_string, null_string_operand,
    object_array, object_array_type, object_class, object_type, outcome_model, params3, params4,
    params5, static_method, static_signature, string_class, text_operand, text_value,
};
use crate::definitions::{add_method, method_added, method_removed, remove_method};
use crate::layout::{Slot, SlotModel, adt_valid, slot_count, valid};
use crate::oomir::{
    Duplicate, DataTypeMethod, DataTypeMethodModel, Function, FunctionModel, Operand, OperandModel,
    Signature, SignatureModel, Text, Type, TypeModel,
};
use crate::rust_type::{Adt, Field, Role, RustType, Shape, TypeKind, Variant};
use crate::text::{cat2, cat3, decimal_text};
use vstd::prelude::*;
use vstd::string::*;

verus! {

/// The field of a union class that holds its bytes.
pub const UNION_BYTES_FIELD: &'static str = "_bytes";

/// The field of a union class that holds its objects.
pub const UNION_OBJECTS_FIELD: &'static str = "_objects";

/// The codec of references to objects that the runtime manages.
pub const MANAGED_OBJECT_POINTER_VIEW_CODEC: &'static str = "@managed-object";

/// What a codec of raw pointers starts with.
pub const RAW_POINTER_VIEW_CODEC: &'static str = "@raw-pointer";

/// What a codec of references to arrays starts with.
pub const ARRAY_REFERENCE_VIEW_CODEC_PREFIX: &'static str = "@array-reference\n";

/// What a codec of pointers to slices starts with.
pub const SLICE_POINTER_VIEW_CODEC_PREFIX: &'static str = "@slice-pointer\n";

/// What a codec of pointers to structs with an unsized end starts with.
pub const STRUCT_TAIL_POINTER_VIEW_CODEC_PREFIX: &'static str = "@struct-tail-pointer\n";

/// What a codec of raw pointers to trait objects starts with.
pub const TRAIT_POINTER_VIEW_CODEC_PREFIX: &'static str = "@trait-pointer\n";

/// The method of an enum that writes a value into storage.
pub const ENUM_WRITE_UNION_STORAGE_METHOD: &'static str = "_writeUnionStorage";

/// The method of an enum that reads a value from storage.
pub const ENUM_READ_UNION_STORAGE_METHOD: &'static str = "_readUnionStorage";

/// A size as a number of the JVM, or a message if it does not fit.
pub open spec fn jvm_size(size: usize, message: Text) -> Result<i32, Text> {
    if size <= i32::MAX {
        Ok(size as i32)
    } else {
        Err(message)
    }
}

/// A size as a number of the JVM, or a message if it does not fit.
pub fn jvm_size_or(size: usize, message: &str) -> (r: Result<i32, String>)
    ensures
        (match r {
            Ok(n) => Ok(n),
            Err(reason) => Err(reason@),
        }) == jvm_size(size, message@),
{
    if size <= i32::MAX as usize {
        Ok(size as i32)
    } else {
        Err(message.to_string())
    }
}

/// The class that a type is, or a message if it is none.
pub open spec fn class_or(ty: TypeModel, message: Text) -> Result<Text, Text> {
    match ty {
        Type::Class(name) => Ok(name),
        _ => Err(message),
    }
}

/// The class that a type is, or a message if it is none.
pub fn class_name_or(ty: &Type, message: &str) -> (r: Result<String, String>)
    ensures
        outcome_model(r) == class_or(ty.deep_view(), message@),
{
    match ty {
        Type::Class(name) => Ok(name.clone()),
        _ => Err(message.to_string()),
    }
}

/// A codec as a constant, or the absent string.
pub open spec fn codec_value(codec: Option<Text>) -> OperandModel {
    match codec {
        Some(codec) => text_value(codec),
        None => null_string(),
    }
}

/// A codec as a constant, or the absent string.
pub fn codec_operand(codec: &Option<String>) -> (r: Operand)
    ensures
        r.deep_view() == codec_value(codec.deep_view()),
{
    match codec {
        Some(codec) => text_operand(codec.as_str()),
        None => null_string_operand(),
    }
}

/// A codec as a part of another.
pub open spec fn codec_text(codec: Option<Text>) -> Text {
    match codec {
        Some(codec) => codec,
        None => ""@,
    }
}

/// A codec as a part of another.
pub fn codec_text_of(codec: &Option<String>) -> (r: String)
    ensures
        r@ == codec_text(codec.deep_view()),
{
    match codec {
        Some(codec) => codec.clone(),
        None => "".to_string(),
    }
}

/// A text that is there.
pub fn some_text(text: &str) -> (r: Option<String>)
    ensures
        r.deep_view() == Some(text@),
{
    Some(text.to_string())
}

/// A text that is not there.
pub fn no_text() -> (r: Option<String>)
    ensures
        r.deep_view() == None::<Text>,
{
    None
}

/// A size as a number of 64 bits.
pub fn size_as_u64(size: usize) -> (r: u64)
    ensures
        r == size as u64,
{
    size as u64
}

/// Whether a type is a pointer.
pub open spec fn is_pointer(ty: TypeModel) -> bool {
    ty is Pointer
}

/// Whether a type is a pointer.
pub fn is_pointer_type(ty: &Type) -> (r: bool)
    ensures
        r == is_pointer(ty.deep_view()),
{
    matches!(ty, Type::Pointer(_))
}

/// Whether a type is a slice.
pub open spec fn is_slice(ty: TypeModel) -> bool {
    ty is Slice
}

/// Whether a type is a slice.
pub fn is_slice_type(ty: &Type) -> (r: bool)
    ensures
        r == is_slice(ty.deep_view()),
{
    matches!(ty, Type::Slice(_))
}

/// The name of the class of a variant.
pub fn variant_class_name(enum_class: &str, variant: &str) -> (r: String)
    ensures
        r@ == enum_class@ + "$"@ + variant@,
{
    cat3(enum_class, "$", variant)
}

/// The default value of a type as an operand.
pub open spec fn default_value(ty: TypeModel) -> OperandModel {
    constant_value(default_of(ty))
}

/// The value of a field that a codec does not read: zero, or no object.
pub fn default_operand_for_codec(ty: &Type) -> (r: Operand)
    ensures
        r.deep_view() == default_value(ty.deep_view()),
{
    constant_operand(&default_constant(ty))
}

/// How messages write a type whose values are not references.
pub open spec fn plain_type_name(ty: TypeModel) -> Text {
    match ty {
        Type::I8 => "I8"@,
        Type::U8 => "U8"@,
        Type::I16 => "I16"@,
        Type::U16 => "U16"@,
        Type::I32 => "I32"@,
        Type::U32 => "U32"@,
        Type::I64 => "I64"@,
        Type::U64 => "U64"@,
        Type::F16 => "F16"@,
        Type::F32 => "F32"@,
        Type::F64 => "F64"@,
        Type::Boolean => "Boolean"@,
        Type::Char => "Char"@,
        Type::Unit => "Unit"@,
        Type::Void => "Void"@,
        _ => "Object"@,
    }
}

/// How messages write a type whose values are not references.
pub fn type_text(ty: &Type) -> (r: String)
    ensures
        r@ == plain_type_name(ty.deep_view()),
{
    match ty {
        Type::I8 => "I8".to_string(),
        Type::U8 => "U8".to_string(),
        Type::I16 => "I16".to_string(),
        Type::U16 => "U16".to_string(),
        Type::I32 => "I32".to_string(),
        Type::U32 => "U32".to_string(),
        Type::I64 => "I64".to_string(),
        Type::U64 => "U64".to_string(),
        Type::F16 => "F16".to_string(),
        Type::F32 => "F32".to_string(),
        Type::F64 => "F64".to_string(),
        Type::Boolean => "Boolean".to_string(),
        Type::Char => "Char".to_string(),
        Type::Unit => "Unit".to_string(),
        Type::Void => "Void".to_string(),
        _ => "Object".to_string(),
    }
}

/// The signature of the method that writes an enum into storage.
pub open spec fn enum_writer(receiver_class: Text) -> SignatureModel {
    instance_method(
        params4(
            "self"@,
            class(receiver_class),
            "bytes"@,
            byte_array(),
            "objects"@,
            object_array(),
            "offset"@,
            Type::I32,
        ),
        Type::Void,
    )
}

/// The signature of the method that writes an enum into storage.
pub fn enum_union_write_signature(receiver_class: &str) -> (r: Signature)
    ensures
        r.deep_view() == enum_writer(receiver_class@),
{
    instance_signature(
        &make_params4(
            "self",
            &class_type(receiver_class),
            "bytes",
            &byte_array_type(),
            "objects",
            &object_array_type(),
            "offset",
            &Type::I32,
        ),
        &Type::Void,
    )
}

/// The signature of the method that reads an enum from storage.
pub open spec fn enum_reader(enum_class: Text) -> SignatureModel {
    static_method(
        params3("bytes"@, byte_array(), "objects"@, object_array(), "offset"@, Type::I32),
        class(enum_class),
    )
}

/// The signature of the method that reads an enum from storage.
pub fn enum_union_read_signature(enum_class: &str) -> (r: Signature)
    ensures
        r.deep_view() == enum_reader(enum_class@),
{
    static_signature(
        &make_params3(
            "bytes",
            &byte_array_type(),
            "objects",
            &object_array_type(),
            "offset",
            &Type::I32,
        ),
        &class_type(enum_class),
    )
}

/// The signature of the runtime method that gives a pointer an address inside its owner.
pub open spec fn encoded_address(pointer_ty: TypeModel) -> SignatureModel {
    static_method(
        params5(
            "pointer"@,
            pointer_ty,
            "owner"@,
            object_class(),
            "owner_offset"@,
            Type::I32,
            "encoded_size"@,
            Type::I32,
            "pointer_codec"@,
            string_class(),
        ),
        Type::U64,
    )
}

/// The signature of the runtime method that gives a pointer an address inside its owner.
pub fn encoded_address_signature(pointer_ty: &Type) -> (r: Signature)
    ensures
        r.deep_view() == encoded_address(pointer_ty.deep_view()),
{
    static_signature(
        &make_params5(
            "pointer",
            pointer_ty,
            "owner",
            &object_type(),
            "owner_offset",
            &Type::I32,
            "encoded_size",
            &Type::I32,
            "pointer_codec",
            &java_string(),
        ),
        &Type::U64,
    )
}

/// What a pointer type points to.
pub open spec fn pointee_of(ty: RustType) -> Option<RustType> {
    match ty.kind {
        TypeKind::Ref { pointee, .. } => Some(*pointee),
        TypeKind::RawPtr { pointee, .. } => Some(*pointee),
        TypeKind::Adt(adt) => match adt.role {
            Role::NonNull { pointee: Some(pointee) } => Some(*pointee),
            _ => None,
        },
        _ => None,
    }
}

/// What a pointer type points to.
pub fn get_pointee(ty: &RustType) -> (r: Option<&RustType>)
    ensures
        (match r {
            Some(pointee) => Some(*pointee),
            None => None,
        }) == pointee_of(*ty),
{
    match &ty.kind {
        TypeKind::Ref { pointee, .. } => Some(pointee),
        TypeKind::RawPtr { pointee, .. } => Some(pointee),
        TypeKind::Adt(adt) => match &adt.role {
            Role::NonNull { pointee: Some(pointee) } => Some(pointee),
            _ => None,
        },
        _ => None,
    }
}

/// What a pointer points to is a part of its type, and is described completely with it.
pub proof fn pointee_is_inside(ty: RustType)
    ensures
        pointee_of(ty) matches Some(pointee) ==> decreases_to!(ty => pointee) && (valid(ty)
            ==> valid(pointee)),
{
    match ty.kind {
        TypeKind::Adt(adt) => {
            if valid(ty) {
                assert(adt_valid(adt));
            }
        },
        _ => {},
    }
}

/// The signature of the runtime method that finds the pointer of an address.
pub open spec fn from_address(pointer_ty: TypeModel) -> SignatureModel {
    static_method(
        params3(
            "address"@,
            Type::U64,
            "view_size"@,
            Type::U64,
            "view_codec"@,
            string_class(),
        ),
        pointer_ty,
    )
}

/// The signature of the runtime method that finds the pointer of an address.
pub fn from_address_signature(pointer_ty: &Type) -> (r: Signature)
    ensures
        r.deep_view() == from_address(pointer_ty.deep_view()),
{
    static_signature(
        &make_params3(
            "address",
            &Type::U64,
            "view_size",
            &Type::U64,
            "view_codec",
            &java_string(),
        ),
        pointer_ty,
    )
}

/// The signature of the runtime method that finds the pointer of an encoded address.
pub open spec fn from_encoded_address(pointer_ty: TypeModel) -> SignatureModel {
    static_method(
        params4(
            "address"@,
            Type::U64,
            "view_size"@,
            Type::U64,
            "view_codec"@,
            string_class(),
            "pointer_codec"@,
            string_class(),
        ),
        pointer_ty,
    )
}

/// The signature of the runtime method that finds the pointer of an encoded address.
pub fn from_encoded_address_signature(pointer_ty: &Type) -> (r: Signature)
    ensures
        r.deep_view() == from_encoded_address(pointer_ty.deep_view()),
{
    static_signature(
        &make_params4(
            "address",
            &Type::U64,
            "view_size",
            &Type::U64,
            "view_codec",
            &java_string(),
            "pointer_codec",
            &java_string(),
        ),
        pointer_ty,
    )
}

/// The length of an array, or why it is not known.
pub open spec fn concrete_length(length: Option<u64>, ty: RustType) -> Result<u64, Text> {
    match length {
        Some(n) => Ok(n),
        None => Err("array length is not concrete for "@ + ty.text@),
    }
}

/// The length of an array, or why it is not known.
pub fn concrete_length_of(length: &Option<u64>, ty: &RustType) -> (r: Result<u64, String>)
    ensures
        (match r {
            Ok(n) => Ok(n),
            Err(reason) => Err(reason@),
        }) == concrete_length(*length, *ty),
{
    match length {
        Some(n) => Ok(*n),
        None => Err(cat2("array length is not concrete for ", ty.text.as_str())),
    }
}

/// The length of an array as a number of the JVM.
pub open spec fn length_number(length: u64) -> i32 {
    length as i32
}

/// The length of an array as a number of the JVM.
pub fn length_number_of(length: u64) -> (r: i32)
    ensures
        r == length_number(length),
{
    length as i32
}

/// Whether there are no fields.
pub open spec fn is_empty_list(fields: Seq<Field>) -> bool {
    fields.len() == 0
}

/// Whether there are no fields.
pub fn has_no_fields(fields: &Vec<Field>) -> (r: bool)
    ensures
        r == is_empty_list(fields@),
{
    fields.len() == 0
}

/// Definitions in which a class has one more function.
pub open spec fn function_added(
    class_name: Text,
    name: Text,
    function: FunctionModel,
    defs: DefinitionsModel,
) -> DefinitionsModel {
    method_added(defs, class_name, name, DataTypeMethodModel::Function(function))
}

/// Gives a class one more function.
pub fn add_function(class_name: &str, name: &str, function: Function, defs: &mut Definitions)
    ensures
        final(defs).deep_view() == function_added(
            class_name@,
            name@,
            function.deep_view(),
            old(defs).deep_view(),
        ),
{
    add_method(defs, class_name, name, DataTypeMethod::Function(function));
}

/// Definitions in which a class has one method less.
pub open spec fn method_taken(
    class_name: Text,
    name: Text,
    defs: DefinitionsModel,
) -> DefinitionsModel {
    method_removed(defs, class_name, name)
}

/// Definitions in which a class has one method less.
pub fn take_method(class_name: &str, name: &str, defs: &mut Definitions)
    ensures
        final(defs).deep_view() == method_taken(class_name@, name@, old(defs).deep_view()),
{
    remove_method(defs, class_name, name);
}

/// The number of parts in front of one that have fields.
pub open spec fn slot_rank(slots: Seq<Option<SlotModel>>, index: usize) -> nat {
    slot_count(slots.take(index as int))
}

/// The number of parts in front of one that have fields.
pub fn slot_rank_of(slots: &Vec<Option<Slot>>, index: usize) -> (r: usize)
    requires
        index <= slots@.len(),
    ensures
        r == slot_rank(slots.deep_view(), index),
{
    let mut count: usize = 0;
    let ghost model = slots.deep_view();
    for i in 0..index
        invariant
            model == slots.deep_view(),
            index <= slots@.len(),
            count <= i,
            count == slot_count(model.take(i as int)),
    {
        assert(model.take(i + 1).drop_last() =~= model.take(i as int));
        assert(model.take(i + 1).last() == slots@[i as int].deep_view());
        if slots[i].is_some() {
            count = count + 1;
        }
    }
    count
}

/// The path of a part inside a codec.
pub open spec fn part_path(helper_path: Text, slots: Seq<Option<SlotModel>>, index: usize) -> Text {
    helper_path + "Field"@ + decimal_text(slot_rank(slots, index))
}

/// The path of a part inside a codec.
pub fn part_path_of(helper_path: &str, slots: &Vec<Option<Slot>>, index: usize) -> (r: String)
    requires
        index <= slots@.len(),
    ensures
        r@ == part_path(helper_path@, slots.deep_view(), index),
{
    cat3(helper_path, "Field", decimal_usize(slot_rank_of(slots, index)).as_str())
}

/// A copy of a signature.
pub fn copy_signature(signature: &Signature) -> (r: Signature)
    ensures
        r.deep_view() == signature.deep_view(),
{
    signature.dup()
}

/// Whether a named type is `NonNull`.
pub open spec fn is_non_null(adt: Adt) -> bool {
    adt.role is NonNull
}

/// Whether a named type is `NonNull`.
pub fn is_non_null_type(adt: &Adt) -> (r: bool)
    ensures
        r == is_non_null(*adt),
{
    matches!(adt.role, Role::NonNull { .. })
}

/// Whether a named type is a struct whose layout is known.
pub open spec fn is_laid_out_struct(adt: Adt) -> bool {
    adt.shape is Struct && adt.layout is Ok && adt.variants@.len() > 0
}

/// Whether a named type is a struct whose layout is known.
pub fn is_known_struct(adt: &Adt) -> (r: bool)
    ensures
        r == is_laid_out_struct(*adt),
{
    matches!(adt.shape, Shape::Struct) && adt.layout.is_ok() && adt.variants.len() > 0
}

/// The only variant of a struct or a union.
pub fn first_variant_of(adt: &Adt) -> (r: &Variant)
    requires
        adt.variants@.len() > 0,
    ensures
        *r == adt.variants@[0],
{
    &adt.variants[0]
}

} // verus!
