//! How Rust types are represented.
use crate::oomir::{Text, Type};
use crate::rust_type::{
    Bound, FloatKind, IntKind, Role, RustType, TypeKind, UintKind, first_interface, lowered,
};
use vstd::prelude::*;
use vstd::string::*;

verus! {

/// What a reference, a raw pointer or a non-null pointer to a sized type points to.
pub open spec fn target_of(ty: RustType) -> Option<RustType> {
    match ty.kind {
        TypeKind::Ref { pointee, .. } => Some(*pointee),
        TypeKind::RawPtr { pointee, .. } => Some(*pointee),
        TypeKind::Adt(adt) => match adt.role {
            Role::NonNull { pointee: Some(pointee) } => if pointee.is_sized {
                Some(*pointee)
            } else {
                None
            },
            _ => None,
        },
        _ => None,
    }
}

/// Whether pointers to a type are objects that hold an address: the type is no array and no trait
/// object, and has an end that is known.
pub open spec fn has_plain_pointers(ty: RustType) -> bool {
    !(ty.kind is Array || ty.kind is Slice || ty.kind is Str || ty.kind is Dynamic || lowered(ty)
        is Void)
}

/// All pointers to a type are represented alike, whether they can be written through or not, and
/// whatever kind of pointer they are: as pointers to what the type is represented by.
pub proof fn pointers_are_represented_alike(ty: RustType, pointee: RustType)
    requires
        target_of(ty) == Some(pointee),
        has_plain_pointers(pointee),
    ensures
        lowered(ty) == Type::Pointer(Box::new(lowered(pointee))),
{
    reveal_with_fuel(lowered, 2);
}

/// Slices of a type, references to them and raw pointers to them are represented alike, and so are
/// references to arrays of the type.
pub proof fn views_are_represented_alike(ty: RustType, element: RustType)
    requires
        match ty.kind {
            TypeKind::Slice(found) => *found == element,
            TypeKind::Ref { pointee, .. } => match pointee.kind {
                TypeKind::Slice(found) => *found == element,
                TypeKind::Array { element: found, .. } => *found == element,
                _ => false,
            },
            TypeKind::RawPtr { pointee, .. } => pointee.kind matches TypeKind::Slice(found)
                && *found == element,
            _ => false,
        },
    ensures
        lowered(ty) == Type::Slice(Box::new(lowered(element))),
{
    reveal_with_fuel(lowered, 3);
}

/// Text, references to it and raw pointers to it are represented alike; a reference to a trait
/// object is represented as the object.
pub proof fn unsized_values_are_their_views(ty: RustType)
    ensures
        ty.kind is Str ==> lowered(ty) is Str,
        ty.kind matches TypeKind::Ref { pointee, .. } ==> pointee.kind is Str ==> lowered(ty)
            is Str,
        ty.kind matches TypeKind::RawPtr { pointee, .. } ==> pointee.kind is Str ==> lowered(ty)
            is Str,
        ty.kind matches TypeKind::Ref { pointee, .. } ==> pointee.kind is Dynamic ==> lowered(ty)
            == lowered(*pointee),
{
    reveal_with_fuel(lowered, 2);
}

/// The name of the class that a type has for itself.
pub open spec fn own_class(ty: RustType) -> Option<Text> {
    match ty.kind {
        TypeKind::Tuple { class_name, elements } => if elements@.len() > 0 {
            Some(class_name@)
        } else {
            None
        },
        TypeKind::Adt(adt) => if target_of(ty) is Some {
            None
        } else {
            Some(adt.class_name@)
        },
        TypeKind::Closure { class_name, .. } => Some(class_name@),
        TypeKind::Coroutine(coroutine) => Some(coroutine.class_name@),
        TypeKind::FnDef { class_name, .. } => Some(class_name@),
        _ => None,
    }
}

/// A type with a class of its own is represented by this class, and by nothing else.
pub proof fn own_classes_represent_their_type(ty: RustType, class_name: Text)
    requires
        own_class(ty) == Some(class_name),
    ensures
        lowered(ty) == Type::Class(class_name),
{
}

/// Types without values have none in the JVM either; a type with a pattern is represented as the
/// type without, and an array as an array.
pub proof fn other_types_follow_their_parts(ty: RustType)
    ensures
        ty.kind is Never ==> lowered(ty) is Void,
        ty.kind is Foreign ==> lowered(ty) is Unit,
        ty.kind matches TypeKind::Tuple { elements, .. } ==> elements@.len() == 0 ==> lowered(ty)
            is Unit,
        ty.kind matches TypeKind::Pat(inner) ==> lowered(ty) == lowered(*inner),
        ty.kind matches TypeKind::Array { element, .. } ==> lowered(ty) == Type::Array(
            Box::new(lowered(*element)),
        ),
        ty.kind matches TypeKind::FnPtr { interface, .. } ==> lowered(ty) == Type::Interface(
            "org/rustlang/runtime/"@ + interface.local_name@,
        ),
{
    reveal_with_fuel(lowered, 2);
}

/// A character is a number of 32 bits, a size is one of 64 bits, and the 128-bit numbers are
/// objects of three different classes.
pub proof fn wide_numbers_are_objects(ty: RustType)
    ensures
        ty.kind is Char ==> lowered(ty) is I32,
        ty.kind == TypeKind::Int(IntKind::Isize) ==> lowered(ty) is I64,
        ty.kind == TypeKind::Uint(UintKind::Usize) ==> lowered(ty) is U64,
        ty.kind == TypeKind::Int(IntKind::I128) <==> lowered(ty) == Type::Class(
            "org/rustlang/runtime/I128"@,
        ) && ty.kind is Int,
        ty.kind == TypeKind::Uint(UintKind::U128) <==> lowered(ty) == Type::Class(
            "org/rustlang/runtime/U128"@,
        ) && ty.kind is Uint,
        ty.kind == TypeKind::Float(FloatKind::F128) <==> lowered(ty) == Type::Class(
            "org/rustlang/runtime/F128"@,
        ) && ty.kind is Float,
        ty.kind == TypeKind::Float(FloatKind::F16) ==> lowered(ty) is F16,
{
}

/// A raw pointer to an array or to a trait object is a pointer to what that is represented by; one
/// to what never has a value points to nothing.
pub proof fn raw_pointers_stay_pointers(ty: RustType, pointee: RustType)
    requires
        ty.kind matches TypeKind::RawPtr { pointee: found, .. } && *found == pointee,
        pointee.kind is Array || pointee.kind is Dynamic || lowered(pointee) is Void,
    ensures
        lowered(ty) == Type::Pointer(
            Box::new(
                if lowered(pointee) is Void {
                    Type::Unit
                } else {
                    lowered(pointee)
                },
            ),
        ),
{
    reveal_with_fuel(lowered, 2);
}

/// A trait object that can be called is represented by the interface of its calls, and any other by
/// the first interface of its bounds.
pub proof fn trait_objects_are_interfaces(ty: RustType)
    ensures
        ty.kind matches TypeKind::Dynamic(dynamic) ==> match dynamic.callable {
            Some(call) => lowered(ty) == Type::Interface(
                "org/rustlang/runtime/"@ + call.interface.local_name@,
            ),
            None => lowered(ty) == first_interface(dynamic.bounds@),
        },
{
}

/// The interface of a bound, if it has one.
pub open spec fn interface_of(bound: Bound) -> Option<Text> {
    match bound {
        Bound::Trait { interface_name, .. } => Some(interface_name@),
        Bound::AutoTrait { interface_name, .. } => Some(interface_name@),
        Bound::Projection { .. } => None,
    }
}

/// A trait object is represented by the interface of the first bound that has one, and as any
/// object if none has.
pub proof fn the_first_interface_counts(bounds: Seq<Bound>, i: int)
    requires
        0 <= i <= bounds.len(),
        forall|k: int| 0 <= k < i ==> interface_of(#[trigger] bounds[k]) is None,
        i < bounds.len() ==> interface_of(bounds[i]) is Some,
    ensures
        first_interface(bounds) == (if i < bounds.len() {
            Type::Interface(interface_of(bounds[i])->0)
        } else {
            Type::Class("java/lang/Object"@)
        }),
    decreases i,
{
    if i > 0 {
        assert(interface_of(bounds[0]) is None);
        let rest = bounds.skip(1);
        assert forall|k: int| 0 <= k < i - 1 implies interface_of(#[trigger] rest[k]) is None by {
            assert(rest[k] == bounds[k + 1]);
        }
        if i < bounds.len() {
            assert(rest[i - 1] == bounds[i]);
        }
        the_first_interface_counts(rest, i - 1);
    }
}

} // verus!
