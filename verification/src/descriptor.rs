//! JVM field types and descriptors of types and signatures.
use crate::oomir::{has_value, Duplicate, Signature, SignatureModel, Text, Type, TypeModel};
use crate::text::{cat2, cat3};
use vstd::prelude::*;
use vstd::string::*;

verus! {

/// The runtime class of raw pointers.
pub const POINTER_CLASS: &'static str = "org/rustlang/runtime/Pointer";

/// The runtime class of slices.
pub const SLICE_VIEW_CLASS: &'static str = "org/rustlang/runtime/SliceView";

/// The runtime class of string slices.
pub const UTF8_VIEW_CLASS: &'static str = "org/rustlang/runtime/Utf8View";

/// The root class.
pub const OBJECT_CLASS: &'static str = "java/lang/Object";

/// The primitive JVM types.
#[derive(Debug, Clone, Copy, PartialEq, Eq, Structural)]
pub enum BaseType {
    Byte,
    Char,
    Double,
    Float,
    Int,
    Long,
    Short,
    Boolean,
}

/// The type of a JVM field.
#[derive(Debug, PartialEq, Eq)]
pub enum FieldType<S = String> {
    Base(BaseType),
    Object(S),
    Array(Box<FieldType<S>>),
}

/// The model of a [`FieldType`].
pub type FieldTypeModel = FieldType<Text>;

/// The model of a field type: the same type with its names as character sequences.
pub open spec fn field_type_model(ty: FieldType) -> FieldTypeModel
    decreases ty,
{
    match ty {
        FieldType::Base(base) => FieldType::Base(base),
        FieldType::Object(name) => FieldType::Object(name@),
        FieldType::Array(inner) => FieldType::Array(Box::new(field_type_model(*inner))),
    }
}

impl DeepView for FieldType {
    type V = FieldTypeModel;

    open spec fn deep_view(&self) -> FieldTypeModel {
        field_type_model(*self)
    }
}

/// The field type that holds values of a type, where there is one.
pub open spec fn field_type(ty: TypeModel) -> Option<FieldTypeModel>
    decreases ty,
{
    match ty {
        Type::I8 => Some(FieldType::Base(BaseType::Byte)),
        Type::U8 => Some(FieldType::Base(BaseType::Byte)),
        Type::I16 => Some(FieldType::Base(BaseType::Short)),
        Type::F16 => Some(FieldType::Base(BaseType::Short)),
        Type::U16 => Some(FieldType::Base(BaseType::Char)),
        Type::I32 => Some(FieldType::Base(BaseType::Int)),
        Type::U32 => Some(FieldType::Base(BaseType::Int)),
        Type::I64 => Some(FieldType::Base(BaseType::Long)),
        Type::U64 => Some(FieldType::Base(BaseType::Long)),
        Type::F32 => Some(FieldType::Base(BaseType::Float)),
        Type::F64 => Some(FieldType::Base(BaseType::Double)),
        Type::Boolean => Some(FieldType::Base(BaseType::Boolean)),
        Type::Char => Some(FieldType::Base(BaseType::Char)),
        Type::Str => Some(FieldType::Object(UTF8_VIEW_CLASS@)),
        Type::Reference(inner) => field_type(*inner),
        Type::Pointer(_) => Some(FieldType::Object(POINTER_CLASS@)),
        Type::Array(inner) => if has_value(*inner) {
            array_field_type(field_type(*inner))
        } else {
            Some(FieldType::Array(Box::new(FieldType::Object(OBJECT_CLASS@))))
        },
        Type::Slice(_) => Some(FieldType::Object(SLICE_VIEW_CLASS@)),
        Type::MutableReference(inner) => if has_value(*inner) {
            array_field_type(field_type(*inner))
        } else {
            Some(FieldType::Object(OBJECT_CLASS@))
        },
        Type::Class(name) => Some(FieldType::Object(name)),
        Type::Interface(name) => Some(FieldType::Object(name)),
        Type::Unit => None,
        Type::Void => None,
    }
}

/// The array of a field type.
pub open spec fn array_field_type(element: Option<FieldTypeModel>) -> Option<FieldTypeModel> {
    match element {
        Some(element) => Some(FieldType::Array(Box::new(element))),
        None => None,
    }
}

/// The field type that holds values of a type.
pub fn oomir_type_to_ristretto_field_type(type2: &Type) -> (r: FieldType)
    requires
        field_type(type2.deep_view()) is Some,
    ensures
        Some(r.deep_view()) == field_type(type2.deep_view()),
    decreases type2,
{
    match type2 {
        Type::I8 | Type::U8 => FieldType::Base(BaseType::Byte),
        Type::I16 | Type::F16 => FieldType::Base(BaseType::Short),
        Type::U16 => FieldType::Base(BaseType::Char),
        Type::I32 | Type::U32 => FieldType::Base(BaseType::Int),
        Type::I64 | Type::U64 => FieldType::Base(BaseType::Long),
        Type::F32 => FieldType::Base(BaseType::Float),
        Type::F64 => FieldType::Base(BaseType::Double),
        Type::Boolean => FieldType::Base(BaseType::Boolean),
        Type::Char => FieldType::Base(BaseType::Char),
        Type::Str => FieldType::Object(UTF8_VIEW_CLASS.to_string()),
        Type::Reference(inner) => oomir_type_to_ristretto_field_type(inner),
        Type::Pointer(_) => FieldType::Object(POINTER_CLASS.to_string()),
        Type::Array(inner) => {
            let element = if inner.has_jvm_value() {
                oomir_type_to_ristretto_field_type(inner)
            } else {
                FieldType::Object(OBJECT_CLASS.to_string())
            };
            FieldType::Array(Box::new(element))
        },
        Type::Slice(_) => FieldType::Object(SLICE_VIEW_CLASS.to_string()),
        Type::MutableReference(inner) => if inner.has_jvm_value() {
            FieldType::Array(Box::new(oomir_type_to_ristretto_field_type(inner)))
        } else {
            FieldType::Object(OBJECT_CLASS.to_string())
        },
        Type::Class(name) | Type::Interface(name) => FieldType::Object(name.clone()),
        Type::Unit | Type::Void => {
            assert(false);
            FieldType::Base(BaseType::Byte)
        },
    }
}

/// The descriptor of a class.
pub open spec fn class_descriptor(name: Text) -> Text {
    "L"@ + name + ";"@
}

/// The JVM descriptor of a type.
pub open spec fn descriptor(ty: TypeModel) -> Text
    decreases ty,
{
    match ty {
        Type::I8 => "B"@,
        Type::U8 => "B"@,
        Type::I16 => "S"@,
        Type::F16 => "S"@,
        Type::U16 => "C"@,
        Type::I32 => "I"@,
        Type::U32 => "I"@,
        Type::I64 => "J"@,
        Type::U64 => "J"@,
        Type::F32 => "F"@,
        Type::F64 => "D"@,
        Type::Boolean => "Z"@,
        Type::Char => "C"@,
        Type::Str => class_descriptor(UTF8_VIEW_CLASS@),
        Type::Reference(inner) => descriptor(*inner),
        Type::Pointer(_) => class_descriptor(POINTER_CLASS@),
        Type::Array(inner) => if has_value(*inner) {
            "["@ + descriptor(*inner)
        } else {
            "["@ + class_descriptor(OBJECT_CLASS@)
        },
        Type::Slice(_) => class_descriptor(SLICE_VIEW_CLASS@),
        Type::MutableReference(inner) => if has_value(*inner) {
            "["@ + descriptor(*inner)
        } else {
            class_descriptor(OBJECT_CLASS@)
        },
        Type::Class(name) => class_descriptor(name),
        Type::Interface(name) => class_descriptor(name),
        Type::Unit => "V"@,
        Type::Void => "V"@,
    }
}

fn class_descriptor_of(name: &str) -> (r: String)
    ensures
        r@ == class_descriptor(name@),
{
    cat3("L", name, ";")
}

impl Type {
    /// The JVM descriptor of the type.
    pub fn to_jvm_descriptor(&self) -> (r: String)
        ensures
            r@ == descriptor(self.deep_view()),
        decreases self,
    {
        match self {
            Type::I8 | Type::U8 => "B".to_string(),
            Type::I16 | Type::F16 => "S".to_string(),
            Type::U16 | Type::Char => "C".to_string(),
            Type::I32 | Type::U32 => "I".to_string(),
            Type::I64 | Type::U64 => "J".to_string(),
            Type::F32 => "F".to_string(),
            Type::F64 => "D".to_string(),
            Type::Boolean => "Z".to_string(),
            Type::Str => class_descriptor_of(UTF8_VIEW_CLASS),
            Type::Reference(inner) => inner.to_jvm_descriptor(),
            Type::Pointer(_) => class_descriptor_of(POINTER_CLASS),
            Type::Array(inner) => if inner.has_jvm_value() {
                cat2("[", inner.to_jvm_descriptor().as_str())
            } else {
                cat2("[", class_descriptor_of(OBJECT_CLASS).as_str())
            },
            Type::Slice(_) => class_descriptor_of(SLICE_VIEW_CLASS),
            Type::MutableReference(inner) => if inner.has_jvm_value() {
                cat2("[", inner.to_jvm_descriptor().as_str())
            } else {
                class_descriptor_of(OBJECT_CLASS)
            },
            Type::Class(name) | Type::Interface(name) => class_descriptor_of(name.as_str()),
            Type::Unit | Type::Void => "V".to_string(),
        }
    }
}

/// The letter of a primitive type.
pub open spec fn base_descriptor(base: BaseType) -> Text {
    match base {
        BaseType::Byte => "B"@,
        BaseType::Char => "C"@,
        BaseType::Double => "D"@,
        BaseType::Float => "F"@,
        BaseType::Int => "I"@,
        BaseType::Long => "J"@,
        BaseType::Short => "S"@,
        BaseType::Boolean => "Z"@,
    }
}

/// The descriptor of a field type.
pub open spec fn field_descriptor(ty: FieldTypeModel) -> Text
    decreases ty,
{
    match ty {
        FieldType::Base(base) => base_descriptor(base),
        FieldType::Object(name) => class_descriptor(name),
        FieldType::Array(inner) => "["@ + field_descriptor(*inner),
    }
}

/// The field type of a type and its descriptor agree.
pub proof fn field_type_has_the_descriptor(ty: TypeModel)
    ensures
        field_type(ty) matches Some(field) ==> field_descriptor(field) == descriptor(ty),
    decreases ty,
{
    match ty {
        Type::Reference(inner) => field_type_has_the_descriptor(*inner),
        Type::Array(inner) => {
            field_type_has_the_descriptor(*inner);
            reveal_with_fuel(field_descriptor, 2);
        },
        Type::MutableReference(inner) => field_type_has_the_descriptor(*inner),
        _ => {},
    }
}

/// Whether values of a type are references to objects or arrays.
pub open spec fn is_reference(ty: TypeModel) -> bool
    decreases ty,
{
    match ty {
        Type::Str => true,
        Type::Reference(inner) => is_reference(*inner),
        Type::MutableReference(_) => true,
        Type::Pointer(_) => true,
        Type::Array(_) => true,
        Type::Slice(_) => true,
        Type::Class(_) => true,
        Type::Interface(_) => true,
        _ => false,
    }
}

/// The class or interface that a type names.
pub open spec fn class_name_of(ty: TypeModel) -> Option<Text> {
    match ty {
        Type::Class(name) => Some(name),
        Type::Interface(name) => Some(name),
        _ => None,
    }
}

impl Type {
    /// Whether values of the type are references to objects or arrays.
    pub fn is_jvm_reference_type(&self) -> (r: bool)
        ensures
            r == is_reference(self.deep_view()),
        decreases self,
    {
        match self {
            Type::Reference(inner) => inner.is_jvm_reference_type(),
            Type::Str | Type::MutableReference(_) | Type::Pointer(_) | Type::Array(_)
            | Type::Slice(_) | Type::Class(_) | Type::Interface(_) => true,
            _ => false,
        }
    }

    /// The class or interface that the type names.
    pub fn get_class_name(&self) -> (r: Option<String>)
        ensures
            r.deep_view() == class_name_of(self.deep_view()),
    {
        match self {
            Type::Class(name) | Type::Interface(name) => Some(name.clone()),
            _ => None,
        }
    }
}

/// The descriptors of parameters that have a JVM value, one behind the other.
pub open spec fn parameter_descriptors(params: Seq<(Text, TypeModel)>) -> Text
    decreases params.len(),
{
    if params.len() == 0 {
        Seq::empty()
    } else {
        let front = parameter_descriptors(params.drop_last());
        if has_value(params.last().1) {
            front + descriptor(params.last().1)
        } else {
            front
        }
    }
}

/// The parameters that stand in the descriptor: all of a static method, and all behind the receiver
/// of an instance method.
pub open spec fn explicit_parameters(signature: SignatureModel) -> Seq<(Text, TypeModel)> {
    if signature.is_static || signature.params.len() == 0 {
        signature.params
    } else {
        signature.params.skip(1)
    }
}

/// The JVM descriptor of a method.
pub open spec fn method_descriptor(signature: SignatureModel) -> Text {
    "("@ + parameter_descriptors(explicit_parameters(signature)) + ")"@ + descriptor(signature.ret)
}

impl Signature {
    /// The JVM descriptor of the method.
    pub fn to_descriptor(&self) -> (r: String)
        ensures
            r@ == method_descriptor(self.deep_view()),
    {
        let start: usize = if self.is_static || self.params.len() == 0 { 0 } else { 1 };
        let ghost params = explicit_parameters(self.deep_view());
        let mut text = String::new();
        assert(params.take(0) =~= Seq::<(Text, TypeModel)>::empty());
        let mut i: usize = start;
        while i < self.params.len()
            invariant
                start <= i <= self.params@.len(),
                params.len() == self.params@.len() - start,
                forall|k: int| 0 <= k < params.len()
                    ==> #[trigger] params[k] == self.params@[k + start].deep_view(),
                text@ == parameter_descriptors(params.take(i - start)),
            decreases self.params@.len() - i,
        {
            let ghost k = i - start;
            assert(params.take(k + 1).drop_last() =~= params.take(k));
            assert(params.take(k + 1).last() == params[k]);
            if self.params[i].1.has_jvm_value() {
                text.append(self.params[i].1.to_jvm_descriptor().as_str());
            }
            i = i + 1;
        }
        assert(params.take(params.len() as int) =~= params);
        let mut r = cat3("(", text.as_str(), ")");
        r.append(self.ret.to_jvm_descriptor().as_str());
        r
    }
}

} // verus!
