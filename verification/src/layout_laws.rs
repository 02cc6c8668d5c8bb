//! Which values have exact bytes, which need objects beside them, and how wide numbers are.
use crate::layout::{
    SlotModel, exact_bytes, exact_fields, exact_types, exact_variants, is_split, slot_count,
    tag_check,
};
use crate::oomir::{Text, Type, TypeModel};
use crate::rust_type::{
    Field, RustType, TypeKind, Variant, VariantLayout, fields_need_objects, lowered, needs_objects,
    objects_size, tail_of, variants_need_objects,
};
use crate::scalar_trip::number_size;
use vstd::prelude::*;

verus! {

/// Whether a field counts when the bytes of a value are looked at: one of a trait object can be
/// left out.
pub open spec fn counts(fields: Seq<Field>, i: int, skip_dynamic: bool) -> bool {
    0 <= i < fields.len() && !(skip_dynamic && fields[i].ty.kind is Dynamic)
}

/// The bytes of fields are known if and only if those of each field are; otherwise the reason is
/// that of the first field without.
pub proof fn exact_fields_are_each_exact(fields: Seq<Field>, from: nat, skip_dynamic: bool)
    ensures
        exact_fields(fields, from, skip_dynamic) is Ok <==> forall|i: int|
            from <= i && counts(fields, i, skip_dynamic) ==> exact_bytes(
                (#[trigger] fields[i]).ty,
            ) is Ok,
        exact_fields(fields, from, skip_dynamic) matches Err(reason) ==> exists|i: int|
            from <= i && counts(fields, i, skip_dynamic) && exact_bytes((#[trigger] fields[i]).ty)
                == Err::<(), Text>(reason) && forall|j: int|
                from <= j < i && counts(fields, j, skip_dynamic) ==> exact_bytes(
                    (#[trigger] fields[j]).ty,
                ) is Ok,
    decreases fields.len() - from,
{
    if from < fields.len() {
        exact_fields_are_each_exact(fields, from + 1, skip_dynamic);
        let here = fields[from as int];
        if counts(fields, from as int, skip_dynamic) && exact_bytes(here.ty) is Err {
            assert(exact_bytes(fields[from as int].ty) is Err);
        } else if let Err(reason) = exact_fields(fields, from + 1, skip_dynamic) {
            let i = choose|i: int|
                from + 1 <= i && counts(fields, i, skip_dynamic) && exact_bytes(
                    (#[trigger] fields[i]).ty,
                ) == Err::<(), Text>(reason) && forall|j: int|
                    from + 1 <= j < i && counts(fields, j, skip_dynamic) ==> exact_bytes(
                        (#[trigger] fields[j]).ty,
                    ) is Ok;
            assert(exact_bytes(fields[i].ty) == Err::<(), Text>(reason));
            assert(forall|j: int|
                from <= j < i && counts(fields, j, skip_dynamic) ==> exact_bytes(
                    (#[trigger] fields[j]).ty,
                ) is Ok);
        }
    }
}

proof fn exact_variants_are_each_exact(variants: Seq<Variant>, from: nat)
    ensures
        exact_variants(variants, from) is Ok <==> forall|v: int|
            from <= v < variants.len() ==> exact_fields(
                (#[trigger] variants[v]).fields@,
                0,
                true,
            ) is Ok,
    decreases variants.len() - from,
{
    if from < variants.len() {
        exact_variants_are_each_exact(variants, from + 1);
        assert(exact_fields(variants[from as int].fields@, 0, true) is Ok || exact_fields(
            variants[from as int].fields@,
            0,
            true,
        ) is Err);
    }
}

proof fn exact_types_are_each_exact(types: Seq<RustType>, from: nat)
    ensures
        exact_types(types, from) is Ok <==> forall|i: int|
            from <= i < types.len() ==> exact_bytes(#[trigger] types[i]) is Ok,
    decreases types.len() - from,
{
    if from < types.len() {
        exact_types_are_each_exact(types, from + 1);
        assert(exact_bytes(types[from as int]) is Ok || exact_bytes(types[from as int]) is Err);
    }
}

/// Whether the bytes of each part of a value are known.
pub open spec fn parts_are_exact(ty: RustType) -> bool {
    match ty.kind {
        TypeKind::Pat(inner) => exact_bytes(*inner) is Ok,
        TypeKind::Array { element, length } => length is Some && exact_bytes(*element) is Ok,
        TypeKind::Tuple { elements, .. } => forall|i: int|
            0 <= i < elements@.len() ==> exact_bytes((#[trigger] elements@[i]).ty) is Ok,
        TypeKind::Closure { captures, .. } => forall|i: int|
            0 <= i < captures@.len() ==> exact_bytes((#[trigger] captures@[i]).ty) is Ok,
        TypeKind::Adt(adt) => forall|v: int, i: int|
            0 <= v < adt.variants@.len() && 0 <= i < adt.variants@[v].fields@.len() && !(
            adt.variants@[v].fields@[i].ty.kind is Dynamic) ==> exact_bytes(
                (#[trigger] adt.variants@[v].fields@[i]).ty,
            ) is Ok,
        TypeKind::Coroutine(coroutine) => {
            &&& forall|i: int|
                0 <= i < coroutine.captures@.len() ==> exact_bytes(
                    (#[trigger] coroutine.captures@[i]).ty,
                ) is Ok
            &&& coroutine.layout matches Ok(layout)
            &&& forall|i: int|
                0 <= i < layout.saved@.len() ==> exact_bytes(#[trigger] layout.saved@[i]) is Ok
        },
        TypeKind::Bool | TypeKind::Char | TypeKind::Int(_) | TypeKind::Uint(_) => true,
        TypeKind::Float(_) | TypeKind::RawPtr { .. } | TypeKind::Ref { .. } => true,
        TypeKind::FnPtr { .. } => true,
        _ => false,
    }
}

/// A value has exact bytes if and only if its size is known and it has none, or the bytes of each
/// of its parts are known.
pub proof fn exact_values_have_exact_parts(ty: RustType)
    ensures
        exact_bytes(ty) is Ok <==> ty.size is Ok && (ty.size->Ok_0 == 0 || parts_are_exact(ty)),
{
    reveal_with_fuel(exact_bytes, 2);
    match ty.kind {
        TypeKind::Tuple { elements, .. } => exact_fields_are_each_exact(elements@, 0, false),
        TypeKind::Closure { captures, .. } => exact_fields_are_each_exact(captures@, 0, false),
        TypeKind::Coroutine(coroutine) => {
            exact_fields_are_each_exact(coroutine.captures@, 0, false);
            if let Ok(layout) = coroutine.layout {
                exact_types_are_each_exact(layout.saved@, 0);
            }
        },
        TypeKind::Adt(adt) => {
            exact_variants_are_each_exact(adt.variants@, 0);
            assert forall|v: int| 0 <= v < adt.variants@.len() implies (exact_fields(
                (#[trigger] adt.variants@[v]).fields@,
                0,
                true,
            ) is Ok <==> forall|i: int|
                counts(adt.variants@[v].fields@, i, true) ==> exact_bytes(
                    (#[trigger] adt.variants@[v].fields@[i]).ty,
                ) is Ok) by {
                exact_fields_are_each_exact(adt.variants@[v].fields@, 0, true);
            }
        },
        _ => {},
    }
}

proof fn fields_with_objects(fields: Seq<Field>, n: nat)
    requires
        n <= fields.len(),
    ensures
        fields_need_objects(fields, n) <==> exists|i: int|
            0 <= i < n && needs_objects((#[trigger] fields[i]).ty),
    decreases n,
{
    if n > 0 {
        fields_with_objects(fields, (n - 1) as nat);
        assert(needs_objects(fields[n - 1].ty) || !needs_objects(fields[n - 1].ty));
    }
}

proof fn variants_with_objects(variants: Seq<Variant>, n: nat)
    requires
        n <= variants.len(),
    ensures
        variants_need_objects(variants, n) <==> exists|v: int, i: int|
            0 <= v < n && 0 <= i < variants[v].fields@.len() && needs_objects(
                (#[trigger] variants[v].fields@[i]).ty,
            ),
    decreases n,
{
    if n > 0 {
        variants_with_objects(variants, (n - 1) as nat);
        let last = variants[n - 1].fields@;
        fields_with_objects(last, last.len());
        if fields_need_objects(last, last.len()) {
            let i = choose|i: int| 0 <= i < last.len() && needs_objects((#[trigger] last[i]).ty);
            assert(needs_objects(variants[n - 1].fields@[i].ty));
        }
    }
}

/// A value of a known size needs objects beside its bytes if and only if one of its parts does;
/// numbers never do, and pointers and functions always do.
pub proof fn objects_are_needed_by_parts(ty: RustType)
    requires
        ty.size is Ok,
        ty.size->Ok_0 > 0,
    ensures
        needs_objects(ty) <==> (match ty.kind {
            TypeKind::Bool | TypeKind::Char | TypeKind::Int(_) | TypeKind::Uint(_) => false,
            TypeKind::Float(_) => false,
            TypeKind::Pat(inner) => needs_objects(*inner),
            TypeKind::Array { element, .. } => needs_objects(*element),
            TypeKind::Tuple { elements, .. } => exists|i: int|
                0 <= i < elements@.len() && needs_objects((#[trigger] elements@[i]).ty),
            TypeKind::Closure { captures, .. } => exists|i: int|
                0 <= i < captures@.len() && needs_objects((#[trigger] captures@[i]).ty),
            TypeKind::Adt(adt) => exists|v: int, i: int|
                0 <= v < adt.variants@.len() && 0 <= i < adt.variants@[v].fields@.len()
                    && needs_objects((#[trigger] adt.variants@[v].fields@[i]).ty),
            _ => true,
        }),
{
    reveal_with_fuel(needs_objects, 2);
    match ty.kind {
        TypeKind::Tuple { elements, .. } => fields_with_objects(elements@, elements@.len()),
        TypeKind::Closure { captures, .. } => fields_with_objects(captures@, captures@.len()),
        TypeKind::Adt(adt) => variants_with_objects(adt.variants@, adt.variants@.len()),
        _ => {},
    }
}

/// There is a place for an object at each byte of a value that needs objects, and none at all for
/// one that does not.
pub proof fn objects_have_a_place_at_each_byte(ty: RustType, size: usize, offset: usize)
    requires
        offset < size,
    ensures
        needs_objects(ty) ==> offset < objects_size(ty, size),
        !needs_objects(ty) ==> objects_size(ty, size) == 0,
{
}

/// The end of a type has no end but itself: it is no struct or tuple with fields.
pub proof fn ends_are_settled(ty: RustType)
    ensures
        tail_of(tail_of(ty)) == tail_of(ty),
        !(tail_of(ty).kind is Pat),
        tail_of(ty).kind matches TypeKind::Tuple { elements, .. } ==> elements@.len() == 0,
        tail_of(ty).kind matches TypeKind::Adt(adt) ==> !(adt.shape is Struct)
            || adt.variants@.len() == 0 || adt.variants@[0].fields@.len() == 0,
    decreases ty,
{
    reveal_with_fuel(tail_of, 2);
    match ty.kind {
        TypeKind::Adt(adt) => {
            if adt.shape is Struct && adt.variants@.len() > 0 && adt.variants@[0].fields@.len()
                > 0 {
                let fields = adt.variants@[0].fields@;
                ends_are_settled(fields[fields.len() - 1].ty);
            }
        },
        TypeKind::Tuple { elements, .. } => {
            if elements@.len() > 0 {
                ends_are_settled(elements@[elements@.len() - 1].ty);
            }
        },
        TypeKind::Pat(inner) => ends_are_settled(*inner),
        _ => {},
    }
}

/// An enum can be stored if it has a variant and its tag, where it has one, is of one to sixteen
/// bytes.
pub proof fn tags_have_up_to_sixteen_bytes(layout: VariantLayout)
    ensures
        tag_check(layout) is Ok <==> (match layout {
            VariantLayout::Empty => false,
            VariantLayout::Single { .. } => true,
            VariantLayout::Direct { size, .. } => 1 <= size <= 16,
            VariantLayout::Niche { size, .. } => 1 <= size <= 16,
        }),
{
}

proof fn slots_are_counted(slots: Seq<Option<SlotModel>>)
    ensures
        slot_count(slots) == slots.filter(|slot: Option<SlotModel>| slot is Some).len(),
    decreases slots.len(),
{
    reveal(Seq::filter);
    if slots.len() > 0 {
        slots_are_counted(slots.drop_last());
    }
}

/// A value is split if and only if more than one of its parts has a field.
pub proof fn values_with_more_parts_are_split(slots: Seq<Option<SlotModel>>)
    ensures
        is_split(slots) <==> slots.filter(|slot: Option<SlotModel>| slot is Some).len() > 1,
{
    slots_are_counted(slots);
}

/// The number of bytes of a JVM number.
pub open spec fn jvm_bytes(ty: TypeModel) -> Option<usize> {
    match ty {
        Type::Boolean | Type::I8 | Type::U8 => Some(1),
        Type::I16 | Type::U16 | Type::F16 | Type::Char => Some(2),
        Type::I32 | Type::U32 | Type::F32 => Some(4),
        Type::I64 | Type::U64 | Type::F64 => Some(8),
        _ => None,
    }
}

/// A scalar is represented by a number that has as many bytes as it has in Rust; an integer keeps
/// whether it has a sign.
pub proof fn scalars_keep_their_width(ty: RustType)
    requires
        number_size(ty.kind) is Some,
    ensures
        jvm_bytes(lowered(ty)) == number_size(ty.kind),
        ty.kind is Int ==> lowered(ty) is I8 || lowered(ty) is I16 || lowered(ty) is I32
            || lowered(ty) is I64,
        ty.kind is Uint ==> lowered(ty) is U8 || lowered(ty) is U16 || lowered(ty) is U32
            || lowered(ty) is U64,
        ty.kind is Float ==> lowered(ty) is F32 || lowered(ty) is F64,
        ty.kind is Bool ==> lowered(ty) is Boolean,
{
    reveal_with_fuel(lowered, 2);
}

} // verus!
