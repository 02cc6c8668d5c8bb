//! Resolved Rust types as far as their JVM representation depends on them.
use crate::code::{
    array_of, array_type, class, class_type, object_class, object_type, pointer_to, pointer_type,
    slice_of, slice_type,
};
use crate::oomir::{Constant, Instruction, Signature, Text, Type, TypeModel};
use crate::text::cat2;
use crate::union_storage::{F128_CLASS, I128_CLASS, U128_CLASS};
use vstd::prelude::*;
use vstd::string::*;

verus! {

/// The widths of signed integers.
#[derive(Debug, Clone, Copy, PartialEq, Eq, Structural)]
pub enum IntKind {
    I8,
    I16,
    I32,
    I64,
    I128,
    Isize,
}

/// The widths of unsigned integers.
#[derive(Debug, Clone, Copy, PartialEq, Eq, Structural)]
pub enum UintKind {
    U8,
    U16,
    U32,
    U64,
    U128,
    Usize,
}

/// The widths of floating-point numbers.
#[derive(Debug, Clone, Copy, PartialEq, Eq, Structural)]
pub enum FloatKind {
    F16,
    F32,
    F64,
    F128,
}

/// A resolved type.
#[derive(Debug)]
pub struct RustType {
    pub kind: TypeKind,
    /// The type as messages and identities write it.
    pub text: String,
    /// The size in bytes, or why there is none.
    pub size: Result<usize, String>,
    /// Whether values have a size that is known when code is generated.
    pub is_sized: bool,
    /// Whether parameters, bound variables or projections are left in the type.
    pub is_open: bool,
    /// Whether dropping a value runs code.
    pub needs_drop: bool,
    /// The class that encodes and decodes values in pointer memory.
    pub codec_class: String,
    /// How a value is made if the type has no bytes.
    pub zero_sized: ZeroSized,
    /// The code that drops a value in the local `_1`.
    pub drop_code: Vec<Instruction>,
}

/// What a type is made of.
#[derive(Debug)]
pub enum TypeKind {
    Bool,
    Char,
    Int(IntKind),
    Uint(UintKind),
    Float(FloatKind),
    Str,
    Never,
    Foreign,
    Pat(Box<RustType>),
    Ref { pointee: Box<RustType>, mutable: bool },
    RawPtr { pointee: Box<RustType>, mutable: bool },
    Array { element: Box<RustType>, length: Option<u64> },
    Slice(Box<RustType>),
    Tuple { class_name: String, elements: Vec<Field> },
    Adt(Adt),
    Closure { class_name: String, captures: Vec<Field>, arguments: Vec<GenericArg> },
    Coroutine(Coroutine),
    Dynamic(DynamicType),
    FnPtr { inputs: Vec<RustType>, output: Box<RustType>, interface: CallInterface },
    FnDef { class_name: String, arguments: Vec<GenericArg> },
    Other,
}

/// A part of an aggregate; only the fields of named types have names of their own. The name of a
/// field of a union is its JVM name, by which the methods of the union's class are called.
#[derive(Debug)]
pub struct Field {
    pub name: String,
    pub ty: RustType,
    pub offset: usize,
}

/// The three forms of named types.
#[derive(Debug, Clone, Copy, PartialEq, Eq, Structural)]
pub enum Shape {
    Struct,
    Enum,
    Union,
}

/// What the language knows of a named type.
#[derive(Debug)]
pub enum Role {
    Plain,
    OwnedBox,
    NonZero,
    OptionEnum,
    NonNull { pointee: Option<Box<RustType>> },
}

/// A struct, an enum or a union with its generic arguments.
#[derive(Debug)]
pub struct Adt {
    pub shape: Shape,
    pub role: Role,
    /// The class of the type.
    pub class_name: String,
    /// The class of the definition, without generic arguments.
    pub definition_class: String,
    pub arguments: Vec<GenericArg>,
    /// Whether this module defines the class: the definition is of this crate, of `core` or of
    /// `alloc`, or it has generic arguments.
    pub defined_here: bool,
    pub has_destructor: bool,
    /// The integers that the discriminants of an enum are.
    pub discriminants: DiscriminantKind,
    pub variants: Vec<Variant>,
    /// How the variants are laid out, or why that is not known.
    pub layout: Result<VariantLayout, String>,
    /// Whether the variants are described here; if not, another description defines the class.
    pub is_described: bool,
}

/// The integers that the discriminants of an enum are.
#[derive(Debug, Clone, Copy, PartialEq, Eq, Structural)]
pub enum DiscriminantKind {
    Int(IntKind),
    Uint(UintKind),
    Other,
}

/// An argument of a generic definition.
#[derive(Debug)]
pub enum GenericArg {
    Type(RustType),
    Const(String),
    Region,
}

/// A variant of an enum, or the only variant of a struct or a union.
#[derive(Debug)]
pub struct Variant {
    /// The name of the variant as a member of the class.
    pub name: String,
    pub discriminant: u128,
    pub fields: Vec<Field>,
}

/// How the variants of a type share its storage.
#[derive(Debug)]
pub enum VariantLayout {
    Empty,
    Single { variant: u32 },
    Direct { offset: usize, size: usize },
    Niche {
        offset: usize,
        size: usize,
        untagged_variant: u32,
        niche_start_variant: u32,
        niche_end_variant: u32,
        niche_start: u128,
    },
}

/// A coroutine: what it captured, and what it keeps between suspensions.
#[derive(Debug)]
pub struct Coroutine {
    pub class_name: String,
    pub captures: Vec<Field>,
    /// The generic arguments, with the types that it resumes with, yields and returns.
    pub arguments: Vec<GenericArg>,
    /// The layout, or why there is none.
    pub layout: Result<CoroutineLayout, String>,
}

/// The saved values of a coroutine and where they stand in each of its states.
#[derive(Debug)]
pub struct CoroutineLayout {
    /// Where the number of the state is stored as it is, if it is.
    pub state: Option<StatePlace>,
    pub saved: Vec<RustType>,
    pub variants: Vec<CoroutineState>,
}

/// Where a coroutine stores the number of its state.
#[derive(Debug)]
pub struct StatePlace {
    pub offset: usize,
    pub size: usize,
}

/// A state of a coroutine: the saved values that it holds.
#[derive(Debug)]
pub struct CoroutineState {
    pub places: Vec<SavedPlace>,
}

/// Where a state holds a saved value.
#[derive(Debug)]
pub struct SavedPlace {
    /// The position of the value among the saved ones.
    pub index: usize,
    pub offset: usize,
}

/// How a value without bytes is made.
#[derive(Debug)]
pub enum ZeroSized {
    Constant(Constant),
    Instance { class_name: String },
    Unknown,
}

/// A trait object.
#[derive(Debug)]
pub struct DynamicType {
    /// The call that the object answers, if its trait is one of the function traits.
    pub callable: Option<CallShape>,
    pub bounds: Vec<Bound>,
    /// A digest that tells trait objects apart that differ in lifetimes only, if there are any.
    pub region_digest: Option<String>,
}

/// The parameters and the result of a callable trait object.
#[derive(Debug)]
pub struct CallShape {
    pub inputs: Vec<RustType>,
    pub output: Box<RustType>,
    pub interface: CallInterface,
}

/// The interface through which a function value is called.
#[derive(Debug)]
pub struct CallInterface {
    /// The name of the interface inside the runtime package.
    pub local_name: String,
    /// The signature of its method.
    pub method: Signature,
}

/// A bound of a trait object.
#[derive(Debug)]
pub enum Bound {
    Trait { interface_name: String, path: String, arguments: Vec<GenericArg>, defined_here: bool },
    Projection { path: String, item_name: String, arguments: Vec<GenericArg>,
        term: Box<GenericArg> },
    AutoTrait { interface_name: String, defined_here: bool },
}

/// The package of runtime classes.
pub const RUNTIME_PACKAGE: &'static str = "org/rustlang/runtime/";

/// The interface type of a function value.
pub open spec fn call_interface(interface: CallInterface) -> TypeModel {
    Type::Interface(RUNTIME_PACKAGE@ + interface.local_name@)
}

fn call_interface_type(interface: &CallInterface) -> (r: Type)
    ensures
        r.deep_view() == call_interface(*interface),
{
    Type::Interface(cat2(RUNTIME_PACKAGE, interface.local_name.as_str()))
}

/// The interface of the first bound that names one, or the root class.
pub open spec fn first_interface(bounds: Seq<Bound>) -> TypeModel
    decreases bounds.len(),
{
    if bounds.len() == 0 {
        object_class()
    } else {
        match bounds[0] {
            Bound::Trait { interface_name, .. } => Type::Interface(interface_name@),
            Bound::AutoTrait { interface_name, .. } => Type::Interface(interface_name@),
            Bound::Projection { .. } => first_interface(bounds.skip(1)),
        }
    }
}

fn first_interface_type(bounds: &Vec<Bound>) -> (r: Type)
    ensures
        r.deep_view() == first_interface(bounds@),
{
    assert(bounds@.skip(0) =~= bounds@);
    for i in 0..bounds.len()
        invariant
            first_interface(bounds@.skip(i as int)) == first_interface(bounds@),
    {
        match &bounds[i] {
            Bound::Trait { interface_name, .. } => {
                return Type::Interface(interface_name.clone());
            },
            Bound::AutoTrait { interface_name, .. } => {
                return Type::Interface(interface_name.clone());
            },
            Bound::Projection { .. } => {
                assert(bounds@.skip(i as int).skip(1) =~= bounds@.skip(i + 1));
            },
        }
    }
    object_type()
}

/// The class of 128-bit integers of a signedness, and the JVM types of the other integers.
pub open spec fn int_type(kind: IntKind) -> TypeModel {
    match kind {
        IntKind::I8 => Type::I8,
        IntKind::I16 => Type::I16,
        IntKind::I32 => Type::I32,
        IntKind::I64 => Type::I64,
        IntKind::Isize => Type::I64,
        IntKind::I128 => class(I128_CLASS@),
    }
}

fn int_jvm_type(kind: IntKind) -> (r: Type)
    ensures
        r.deep_view() == int_type(kind),
{
    match kind {
        IntKind::I8 => Type::I8,
        IntKind::I16 => Type::I16,
        IntKind::I32 => Type::I32,
        IntKind::I64 => Type::I64,
        IntKind::Isize => Type::I64,
        IntKind::I128 => class_type(I128_CLASS),
    }
}

/// The JVM type of unsigned integers.
pub open spec fn uint_type(kind: UintKind) -> TypeModel {
    match kind {
        UintKind::U8 => Type::U8,
        UintKind::U16 => Type::U16,
        UintKind::U32 => Type::U32,
        UintKind::U64 => Type::U64,
        UintKind::Usize => Type::U64,
        UintKind::U128 => class(U128_CLASS@),
    }
}

fn uint_jvm_type(kind: UintKind) -> (r: Type)
    ensures
        r.deep_view() == uint_type(kind),
{
    match kind {
        UintKind::U8 => Type::U8,
        UintKind::U16 => Type::U16,
        UintKind::U32 => Type::U32,
        UintKind::U64 => Type::U64,
        UintKind::Usize => Type::U64,
        UintKind::U128 => class_type(U128_CLASS),
    }
}

/// The JVM type of floating-point numbers.
pub open spec fn float_type(kind: FloatKind) -> TypeModel {
    match kind {
        FloatKind::F16 => Type::F16,
        FloatKind::F32 => Type::F32,
        FloatKind::F64 => Type::F64,
        FloatKind::F128 => class(F128_CLASS@),
    }
}

fn float_jvm_type(kind: FloatKind) -> (r: Type)
    ensures
        r.deep_view() == float_type(kind),
{
    match kind {
        FloatKind::F16 => Type::F16,
        FloatKind::F32 => Type::F32,
        FloatKind::F64 => Type::F64,
        FloatKind::F128 => class_type(F128_CLASS),
    }
}

/// The pointee of a non-null pointer that is represented like a raw pointer.
pub open spec fn thin_pointee(role: Role) -> Option<RustType> {
    match role {
        Role::NonNull { pointee: Some(pointee) } => if pointee.is_sized {
            Some(*pointee)
        } else {
            None
        },
        _ => None,
    }
}

/// The JVM representation of a type.
pub open spec fn lowered(ty: RustType) -> TypeModel
    decreases ty,
{
    match ty.kind {
        TypeKind::Bool => Type::Boolean,
        // A Rust character is a Unicode scalar value and does not fit the 16 bits of a JVM one.
        TypeKind::Char => Type::I32,
        TypeKind::Int(kind) => int_type(kind),
        TypeKind::Uint(kind) => uint_type(kind),
        TypeKind::Float(kind) => float_type(kind),
        TypeKind::Str => Type::Str,
        TypeKind::Never => Type::Void,
        TypeKind::Foreign => Type::Unit,
        TypeKind::Pat(inner) => lowered(*inner),
        TypeKind::Ref { pointee, .. } => match pointee.kind {
            TypeKind::Dynamic(_) => lowered(*pointee),
            TypeKind::Slice(_) => lowered(*pointee),
            TypeKind::Str => lowered(*pointee),
            TypeKind::Array { element, .. } => slice_of(lowered(*element)),
            _ => pointer_to(lowered(*pointee)),
        },
        TypeKind::RawPtr { pointee, .. } => match pointee.kind {
            TypeKind::Str => Type::Str,
            TypeKind::Slice(element) => slice_of(lowered(*element)),
            _ => if lowered(*pointee) is Void {
                pointer_to(Type::Unit)
            } else {
                pointer_to(lowered(*pointee))
            },
        },
        TypeKind::Array { element, .. } => array_of(lowered(*element)),
        TypeKind::Slice(element) => slice_of(lowered(*element)),
        TypeKind::Tuple { class_name, elements } => if elements@.len() == 0 {
            Type::Unit
        } else {
            class(class_name@)
        },
        TypeKind::Adt(adt) => match adt.role {
            Role::NonNull { pointee: Some(pointee) } => if pointee.is_sized {
                pointer_to(lowered(*pointee))
            } else {
                class(adt.class_name@)
            },
            _ => class(adt.class_name@),
        },
        TypeKind::Closure { class_name, .. } => class(class_name@),
        TypeKind::Coroutine(coroutine) => class(coroutine.class_name@),
        TypeKind::Dynamic(dynamic) => match dynamic.callable {
            Some(call) => call_interface(call.interface),
            None => first_interface(dynamic.bounds@),
        },
        TypeKind::FnPtr { interface, .. } => call_interface(interface),
        TypeKind::FnDef { class_name, .. } => class(class_name@),
        TypeKind::Other => object_class(),
    }
}

impl RustType {
    /// The JVM representation of the type.
    pub fn jvm_type(&self) -> (r: Type)
        ensures
            r.deep_view() == lowered(*self),
        decreases self,
    {
        match &self.kind {
            TypeKind::Bool => Type::Boolean,
            TypeKind::Char => Type::I32,
            TypeKind::Int(kind) => int_jvm_type(*kind),
            TypeKind::Uint(kind) => uint_jvm_type(*kind),
            TypeKind::Float(kind) => float_jvm_type(*kind),
            TypeKind::Str => Type::Str,
            TypeKind::Never => Type::Void,
            TypeKind::Foreign => Type::Unit,
            TypeKind::Pat(inner) => inner.jvm_type(),
            TypeKind::Ref { pointee, .. } => match &pointee.kind {
                TypeKind::Dynamic(_) | TypeKind::Slice(_) | TypeKind::Str => pointee.jvm_type(),
                TypeKind::Array { element, .. } => slice_type(&element.jvm_type()),
                _ => pointer_type(&pointee.jvm_type()),
            },
            TypeKind::RawPtr { pointee, .. } => match &pointee.kind {
                TypeKind::Str => Type::Str,
                TypeKind::Slice(element) => slice_type(&element.jvm_type()),
                _ => {
                    let target = pointee.jvm_type();
                    if matches!(target, Type::Void) {
                        pointer_type(&Type::Unit)
                    } else {
                        pointer_type(&target)
                    }
                },
            },
            TypeKind::Array { element, .. } => array_type(&element.jvm_type()),
            TypeKind::Slice(element) => slice_type(&element.jvm_type()),
            TypeKind::Tuple { class_name, elements } => if elements.len() == 0 {
                Type::Unit
            } else {
                class_type(class_name.as_str())
            },
            TypeKind::Adt(adt) => match &adt.role {
                Role::NonNull { pointee: Some(pointee) } => if pointee.is_sized {
                    pointer_type(&pointee.jvm_type())
                } else {
                    class_type(adt.class_name.as_str())
                },
                _ => class_type(adt.class_name.as_str()),
            },
            TypeKind::Closure { class_name, .. } => class_type(class_name.as_str()),
            TypeKind::Coroutine(coroutine) => class_type(coroutine.class_name.as_str()),
            TypeKind::Dynamic(dynamic) => match &dynamic.callable {
                Some(call) => call_interface_type(&call.interface),
                None => first_interface_type(&dynamic.bounds),
            },
            TypeKind::FnPtr { interface, .. } => call_interface_type(interface),
            TypeKind::FnDef { class_name, .. } => class_type(class_name.as_str()),
            TypeKind::Other => object_type(),
        }
    }
}

/// Whether references and raw pointers to a type are represented differently: those to arrays, to
/// trait objects and to the type without values.
pub open spec fn is_pointed_to_in_two_ways(pointee: RustType) -> bool {
    pointee.kind is Array || pointee.kind is Dynamic || lowered(pointee) is Void
}

/// References and raw pointers share one representation, and whether they allow changes makes no
/// difference to it; only arrays, trait objects and the type without values are pointed to in two
/// ways.
pub proof fn pointers_share_a_representation(
    pointee: RustType,
    reference: RustType,
    pointer: RustType,
    other: RustType,
)
    requires
        reference.kind matches TypeKind::Ref { pointee: p, .. } && *p == pointee,
        pointer.kind matches TypeKind::RawPtr { pointee: p, .. } && *p == pointee,
        other.kind matches TypeKind::Ref { pointee: p, .. } && *p == pointee,
    ensures
        lowered(other) == lowered(reference),
        !is_pointed_to_in_two_ways(pointee) ==> lowered(pointer) == lowered(reference),
{
    reveal_with_fuel(lowered, 3);
}

/// The size of a type, or why there is none.
pub open spec fn size_of(ty: RustType) -> Result<usize, Text> {
    match ty.size {
        Ok(size) => Ok(size),
        Err(reason) => Err(reason@),
    }
}

/// The size of a type, or why there is none.
pub fn layout_size_bytes(ty: &RustType) -> (r: Result<usize, String>)
    ensures
        (match r {
            Ok(size) => Ok(size),
            Err(reason) => Err(reason@),
        }) == size_of(*ty),
{
    match &ty.size {
        Ok(size) => Ok(*size),
        Err(reason) => Err(reason.clone()),
    }
}

/// Whether a value is stored as the bytes of one number.
pub open spec fn is_scalar(ty: RustType) -> bool {
    match ty.kind {
        TypeKind::Bool => true,
        TypeKind::Char => true,
        TypeKind::Int(_) => true,
        TypeKind::Uint(_) => true,
        TypeKind::Float(kind) => !(kind is F128),
        _ => false,
    }
}

/// Whether a value is stored as the bytes of one number.
pub fn is_direct_union_scalar(ty: &RustType) -> (r: bool)
    ensures
        r == is_scalar(*ty),
{
    match &ty.kind {
        TypeKind::Bool | TypeKind::Char | TypeKind::Int(_) | TypeKind::Uint(_) => true,
        TypeKind::Float(kind) => !matches!(kind, FloatKind::F128),
        _ => false,
    }
}

/// Whether a type is a trait object.
pub open spec fn is_dynamic(ty: RustType) -> bool {
    ty.kind is Dynamic
}

/// Whether a type is a trait object.
pub fn is_trait_object(ty: &RustType) -> (r: bool)
    ensures
        r == is_dynamic(*ty),
{
    matches!(&ty.kind, TypeKind::Dynamic(_))
}

/// The type at the end of a struct: that of its last field, of the last field of that, and so on.
pub open spec fn tail_of(ty: RustType) -> RustType
    decreases ty,
{
    match ty.kind {
        TypeKind::Adt(adt) => if adt.shape is Struct && adt.variants@.len() > 0
            && adt.variants@[0].fields@.len() > 0 {
            tail_of(adt.variants@[0].fields@[adt.variants@[0].fields@.len() - 1].ty)
        } else {
            ty
        },
        TypeKind::Tuple { elements, .. } => if elements@.len() > 0 {
            tail_of(elements@[elements@.len() - 1].ty)
        } else {
            ty
        },
        TypeKind::Pat(inner) => tail_of(*inner),
        _ => ty,
    }
}

/// The type at the end of a struct.
pub fn struct_tail(ty: &RustType) -> (r: &RustType)
    ensures
        *r == tail_of(*ty),
    decreases ty,
{
    match &ty.kind {
        TypeKind::Adt(adt) => {
            if matches!(adt.shape, Shape::Struct) && adt.variants.len() > 0
                && adt.variants[0].fields.len() > 0 {
                struct_tail(&adt.variants[0].fields[adt.variants[0].fields.len() - 1].ty)
            } else {
                ty
            }
        },
        TypeKind::Tuple { elements, .. } => {
            if elements.len() > 0 {
                struct_tail(&elements[elements.len() - 1].ty)
            } else {
                ty
            }
        },
        TypeKind::Pat(inner) => struct_tail(inner),
        _ => ty,
    }
}

/// Whether one of the first fields needs the object array.
pub open spec fn fields_need_objects(fields: Seq<Field>, n: nat) -> bool
    decreases fields, 0nat, n,
{
    if n == 0 || n > fields.len() {
        false
    } else {
        fields_need_objects(fields, (n - 1) as nat) || needs_objects(fields[n - 1].ty)
    }
}

/// Whether a field of one of the first variants needs the object array.
pub open spec fn variants_need_objects(variants: Seq<Variant>, n: nat) -> bool
    decreases variants, 0nat, n,
{
    if n == 0 || n > variants.len() {
        false
    } else {
        variants_need_objects(variants, (n - 1) as nat) || fields_need_objects(
            variants[n - 1].fields@,
            variants[n - 1].fields@.len(),
        )
    }
}

/// Whether the storage of a type needs the object array beside the bytes: something in it keeps a
/// JVM object, or its layout is not known.
pub open spec fn needs_objects(ty: RustType) -> bool
    decreases ty, 1nat, 0nat,
{
    match ty.size {
        Err(_) => true,
        Ok(size) => if size == 0 {
            false
        } else {
            match ty.kind {
                TypeKind::Bool => false,
                TypeKind::Char => false,
                TypeKind::Int(_) => false,
                TypeKind::Uint(_) => false,
                TypeKind::Float(_) => false,
                TypeKind::Pat(inner) => needs_objects(*inner),
                TypeKind::Array { element, .. } => needs_objects(*element),
                TypeKind::Tuple { elements, .. } => fields_need_objects(
                    elements@,
                    elements@.len(),
                ),
                TypeKind::Closure { captures, .. } => fields_need_objects(
                    captures@,
                    captures@.len(),
                ),
                TypeKind::Adt(adt) => variants_need_objects(adt.variants@, adt.variants@.len()),
                _ => true,
            }
        },
    }
}

fn some_field_needs_objects(fields: &Vec<Field>) -> (r: bool)
    ensures
        r == fields_need_objects(fields@, fields@.len()),
    decreases fields@, 0nat,
{
    let mut found: bool = false;
    for i in 0..fields.len()
        invariant
            found == fields_need_objects(fields@, i as nat),
    {
        let needed: bool = needs_union_object_storage(&fields[i].ty);
        found = found || needed;
    }
    found
}

fn some_variant_needs_objects(variants: &Vec<Variant>) -> (r: bool)
    ensures
        r == variants_need_objects(variants@, variants@.len()),
    decreases variants@, 0nat,
{
    let mut found: bool = false;
    for i in 0..variants.len()
        invariant
            found == variants_need_objects(variants@, i as nat),
    {
        let needed: bool = some_field_needs_objects(&variants[i].fields);
        found = found || needed;
    }
    found
}

/// Whether the storage of a type needs the object array beside the bytes.
pub fn needs_union_object_storage(ty: &RustType) -> (r: bool)
    ensures
        r == needs_objects(*ty),
    decreases ty, 1nat,
{
    match &ty.size {
        Err(_) => true,
        Ok(size) => {
            if *size == 0 {
                return false;
            }
            match &ty.kind {
                TypeKind::Bool | TypeKind::Char | TypeKind::Int(_) | TypeKind::Uint(_)
                | TypeKind::Float(_) => false,
                TypeKind::Pat(inner) => needs_union_object_storage(inner),
                TypeKind::Array { element, .. } => needs_union_object_storage(element),
                TypeKind::Tuple { elements, .. } => some_field_needs_objects(elements),
                TypeKind::Closure { captures, .. } => some_field_needs_objects(captures),
                TypeKind::Adt(adt) => some_variant_needs_objects(&adt.variants),
                _ => true,
            }
        },
    }
}

/// The length of the object array of a storage: none, or one slot for each byte and at least one.
pub open spec fn objects_size(ty: RustType, rust_size: usize) -> usize {
    if needs_objects(ty) {
        at_least_one(rust_size)
    } else {
        0
    }
}

/// A size, but at least one.
pub open spec fn at_least_one(size: usize) -> usize {
    if size == 0 {
        1
    } else {
        size
    }
}

/// A size, but at least one.
pub fn one_or_more(size: usize) -> (r: usize)
    ensures
        r == at_least_one(size),
{
    if size == 0 {
        1
    } else {
        size
    }
}

/// The length of the object array of a storage.
pub fn union_object_storage_size(ty: &RustType, rust_size: usize) -> (r: usize)
    ensures
        r == objects_size(*ty, rust_size),
{
    if needs_union_object_storage(ty) {
        one_or_more(rust_size)
    } else {
        0
    }
}

} // verus!
