//! Where the parts of a Rust value stand: in its bytes, and in the fields of its class.
use crate::code::{Definitions, DefinitionsModel, decimal_usize, unit_outcome};
use crate::definitions::{declared_field, declared_field_type};
use crate::oomir::{Duplicate, Text, Type, TypeModel, has_value};
use crate::rust_type::{
    Adt, Bound, Coroutine, DynamicType, Field, GenericArg, Role, RustType, TypeKind, Variant,
    VariantLayout, is_dynamic, is_trait_object, lowered, tail_of,
};
use crate::text::{cat2, cat3, decimal_text};
use vstd::prelude::*;
use vstd::string::*;

verus! {

/// Whether all fields describe types completely.
pub open spec fn all_valid(fields: Seq<Field>) -> bool
    decreases fields, 0nat,
{
    forall|i: int| 0 <= i < fields.len() ==> valid((#[trigger] fields[i]).ty)
}

/// Whether all types are described completely.
pub open spec fn types_valid(types: Seq<RustType>) -> bool
    decreases types, 0nat,
{
    forall|i: int| 0 <= i < types.len() ==> valid(#[trigger] types[i])
}

/// Whether a named type is described completely.
pub open spec fn adt_valid(adt: Adt) -> bool
    decreases adt, 0nat,
{
    &&& forall|v: int|
        0 <= v < adt.variants@.len() ==> all_valid((#[trigger] adt.variants@[v]).fields@)
    &&& match adt.role {
        Role::NonNull { pointee: Some(pointee) } => valid(*pointee),
        _ => true,
    }
    &&& arguments_valid(adt.arguments@)
}

/// Whether all generic arguments are described completely.
pub open spec fn arguments_valid(arguments: Seq<GenericArg>) -> bool
    decreases arguments, 0nat,
{
    forall|i: int| 0 <= i < arguments.len() ==> argument_valid(#[trigger] arguments[i])
}

/// Whether a generic argument is described completely.
pub open spec fn argument_valid(argument: GenericArg) -> bool
    decreases argument, 0nat,
{
    match argument {
        GenericArg::Type(ty) => valid(ty),
        _ => true,
    }
}

/// Whether the generic arguments of all bounds are described completely.
pub open spec fn bounds_valid(bounds: Seq<Bound>) -> bool
    decreases bounds, 0nat,
{
    forall|i: int| 0 <= i < bounds.len() ==> bound_valid(#[trigger] bounds[i])
}

/// Whether the generic arguments of a bound are described completely.
pub open spec fn bound_valid(bound: Bound) -> bool
    decreases bound, 0nat,
{
    match bound {
        Bound::Trait { arguments, .. } => arguments_valid(arguments@),
        Bound::Projection { arguments, term, .. } => arguments_valid(arguments@) && argument_valid(
            *term,
        ),
        Bound::AutoTrait { .. } => true,
    }
}

/// Whether a trait object is described completely.
pub open spec fn dynamic_valid(dynamic: DynamicType) -> bool
    decreases dynamic, 0nat,
{
    &&& bounds_valid(dynamic.bounds@)
    &&& match dynamic.callable {
        Some(call) => types_valid(call.inputs@) && valid(*call.output),
        None => true,
    }
}

/// Whether a coroutine is described completely.
pub open spec fn coroutine_valid(coroutine: Coroutine) -> bool
    decreases coroutine, 0nat,
{
    &&& all_valid(coroutine.captures@)
    &&& arguments_valid(coroutine.arguments@)
    &&& match coroutine.layout {
        Ok(layout) => types_valid(layout.saved@),
        Err(_) => true,
    }
}

/// Whether a size is within the address space of the JVM.
pub open spec fn fits_jvm(size: Result<usize, String>) -> bool {
    match size {
        Ok(size) => size <= i32::MAX,
        Err(_) => true,
    }
}

/// Whether a type is described completely: unions and coroutines fit the JVM, and structs and
/// unions have a variant.
pub open spec fn valid(ty: RustType) -> bool
    decreases ty, 1nat,
{
    match ty.kind {
        TypeKind::Pat(inner) => valid(*inner),
        TypeKind::Ref { pointee, .. } => valid(*pointee),
        TypeKind::RawPtr { pointee, .. } => valid(*pointee),
        TypeKind::Array { element, .. } => valid(*element),
        TypeKind::Slice(element) => valid(*element),
        TypeKind::Tuple { elements, .. } => all_valid(elements@),
        TypeKind::Closure { captures, arguments, .. } => all_valid(captures@) && arguments_valid(
            arguments@,
        ),
        TypeKind::Adt(adt) => {
            &&& adt_valid(adt)
            &&& adt.shape is Union ==> fits_jvm(ty.size)
            &&& adt.is_described && !(adt.shape is Enum) ==> adt.variants@.len() > 0
        },
        TypeKind::Coroutine(coroutine) => coroutine_valid(coroutine) && fits_jvm(ty.size),
        TypeKind::Dynamic(dynamic) => dynamic_valid(dynamic),
        TypeKind::FnPtr { inputs, output, .. } => types_valid(inputs@) && valid(*output),
        TypeKind::FnDef { arguments, .. } => arguments_valid(arguments@),
        _ => true,
    }
}

/// Everything behind the end of a struct is described completely.
pub proof fn tail_is_valid(ty: RustType)
    requires
        valid(ty),
    ensures
        valid(tail_of(ty)),
    decreases ty,
{
    match ty.kind {
        TypeKind::Adt(adt) => {
            if adt.shape is Struct && adt.variants@.len() > 0 && adt.variants@[0].fields@.len()
                > 0 {
                let fields = adt.variants@[0].fields@;
                assert(adt_valid(adt));
                assert(all_valid(fields));
                assert(valid(fields[fields.len() - 1].ty));
                tail_is_valid(fields[fields.len() - 1].ty);
            }
        },
        TypeKind::Tuple { elements, .. } => {
            if elements@.len() > 0 {
                assert(all_valid(elements@));
                assert(valid(elements@[elements@.len() - 1].ty));
                tail_is_valid(elements@[elements@.len() - 1].ty);
            }
        },
        TypeKind::Pat(inner) => tail_is_valid(*inner),
        _ => {},
    }
}

/// The end of a struct is the struct itself or a part of it.
pub proof fn tail_is_inside(ty: RustType)
    ensures
        tail_of(ty) == ty || decreases_to!(ty => tail_of(ty)),
    decreases ty,
{
    match ty.kind {
        TypeKind::Adt(adt) => {
            if adt.shape is Struct && adt.variants@.len() > 0 && adt.variants@[0].fields@.len()
                > 0 {
                let fields = adt.variants@[0].fields@;
                let last = fields[fields.len() - 1].ty;
                assert(decreases_to!(ty => last));
                tail_is_inside(last);
            }
        },
        TypeKind::Tuple { elements, .. } => {
            if elements@.len() > 0 {
                let last = elements@[elements@.len() - 1].ty;
                assert(decreases_to!(ty => last));
                tail_is_inside(last);
            }
        },
        TypeKind::Pat(inner) => tail_is_inside(*inner),
        _ => {},
    }
}

/// A field of a class that holds a part of a value.
#[derive(Debug)]
pub struct Slot {
    pub name: String,
    pub ty: Type,
}

/// The model of a [`Slot`].
pub struct SlotModel {
    pub name: Text,
    pub ty: TypeModel,
}

impl DeepView for Slot {
    type V = SlotModel;

    open spec fn deep_view(&self) -> SlotModel {
        SlotModel { name: self.name@, ty: self.ty.deep_view() }
    }
}

impl Duplicate for Slot {
    fn dup(&self) -> (r: Self) {
        Slot { name: self.name.clone(), ty: self.ty.dup() }
    }
}

/// How the fields of a class are named: as declared, or by their positions.
#[derive(Debug, Clone, Copy, PartialEq, Eq, Structural)]
pub enum SlotNames {
    Declared,
    Elements,
    Captures,
}

/// The name of a field of a class.
pub open spec fn slot_name(names: SlotNames, index: nat, field: Field) -> Text {
    match names {
        SlotNames::Declared => field.name@,
        SlotNames::Elements => "field"@ + decimal_text(index),
        SlotNames::Captures => "arg"@ + decimal_text(index),
    }
}

/// The name of a field of a class.
pub fn name_slot(names: SlotNames, index: usize, field: &Field) -> (r: String)
    ensures
        r@ == slot_name(names, index as nat, *field),
{
    match names {
        SlotNames::Declared => field.name.clone(),
        SlotNames::Elements => cat2("field", decimal_usize(index).as_str()),
        SlotNames::Captures => cat2("arg", decimal_usize(index).as_str()),
    }
}

/// The type of a field: what the class declares, or else the representation of the type.
pub open spec fn carrier_type(
    defs: DefinitionsModel,
    class_name: Text,
    name: Text,
    ty: RustType,
) -> TypeModel {
    match declared_field(defs, class_name, name) {
        Some(declared) => declared,
        None => lowered(ty),
    }
}

fn carrier_field_type(defs: &Definitions, class_name: &str, name: &str, ty: &RustType) -> (r: Type)
    ensures
        r.deep_view() == carrier_type(defs.deep_view(), class_name@, name@, *ty),
{
    match declared_field_type(defs, class_name, name) {
        Some(declared) => declared,
        None => ty.jvm_type(),
    }
}

/// A field, if its values have a JVM representation.
pub open spec fn valued_slot(name: Text, ty: TypeModel) -> Option<SlotModel> {
    if has_value(ty) {
        Some(SlotModel { name, ty })
    } else {
        None
    }
}

fn make_slot(name: String, ty: Type) -> (r: Option<Slot>)
    ensures
        r.deep_view() == valued_slot(name@, ty.deep_view()),
{
    if ty.has_jvm_value() {
        Some(Slot { name, ty })
    } else {
        None
    }
}

/// The fields of a class that hold the parts of a value; parts without JVM value have none.
pub open spec fn slots_of_fields(
    names: SlotNames,
    class_name: Text,
    fields: Seq<Field>,
    defs: DefinitionsModel,
) -> Seq<Option<SlotModel>> {
    Seq::new(
        fields.len(),
        |i: int|
            valued_slot(
                slot_name(names, i as nat, fields[i]),
                carrier_type(defs, class_name, slot_name(names, i as nat, fields[i]), fields[i].ty),
            ),
    )
}

/// The fields of a class that hold the parts of a value.
pub fn plan_slots(
    names: SlotNames,
    class_name: &str,
    fields: &Vec<Field>,
    defs: &Definitions,
) -> (r: Vec<Option<Slot>>)
    ensures
        r.deep_view() == slots_of_fields(names, class_name@, fields@, defs.deep_view()),
{
    let mut r: Vec<Option<Slot>> = Vec::new();
    let ghost whole = slots_of_fields(names, class_name@, fields@, defs.deep_view());
    for i in 0..fields.len()
        invariant
            whole == slots_of_fields(names, class_name@, fields@, defs.deep_view()),
            r@.len() == i,
            forall|k: int| #![trigger r@[k]] 0 <= k < i ==> r@[k].deep_view() == whole[k],
    {
        let name = name_slot(names, i, &fields[i]);
        let ty = carrier_field_type(defs, class_name, name.as_str(), &fields[i].ty);
        r.push(make_slot(name, ty));
    }
    assert(r.deep_view() =~= whole);
    r
}

/// Which parts of a value have no field that their class declares.
pub open spec fn undeclared_fields(
    names: SlotNames,
    class_name: Text,
    fields: Seq<Field>,
    defs: DefinitionsModel,
) -> Seq<bool> {
    Seq::new(
        fields.len(),
        |i: int| declared_field(defs, class_name, slot_name(names, i as nat, fields[i])) is None,
    )
}

/// Which parts of a value have no field that their class declares.
pub fn find_undeclared(
    names: SlotNames,
    class_name: &str,
    fields: &Vec<Field>,
    defs: &Definitions,
) -> (r: Vec<bool>)
    ensures
        r.deep_view() == undeclared_fields(names, class_name@, fields@, defs.deep_view()),
{
    let mut r: Vec<bool> = Vec::new();
    for i in 0..fields.len()
        invariant
            r@.len() == i,
            forall|k: int|
                #![trigger r@[k]]
                0 <= k < i ==> r@[k] == undeclared_fields(
                    names,
                    class_name@,
                    fields@,
                    defs.deep_view(),
                )[k],
    {
        let name = name_slot(names, i, &fields[i]);
        r.push(declared_field_type(defs, class_name, name.as_str()).is_none());
    }
    assert(r.deep_view() =~= undeclared_fields(names, class_name@, fields@, defs.deep_view()));
    r
}

/// Which saved values have no field that the class of their coroutine declares.
pub open spec fn undeclared_saved(
    class_name: Text,
    saved: Seq<RustType>,
    defs: DefinitionsModel,
) -> Seq<bool> {
    Seq::new(
        saved.len(),
        |i: int| declared_field(defs, class_name, "state"@ + decimal_text(i as nat)) is None,
    )
}

/// Which saved values have no field that the class of their coroutine declares.
pub fn find_undeclared_saved(class_name: &str, saved: &Vec<RustType>, defs: &Definitions) -> (r:
    Vec<bool>)
    ensures
        r.deep_view() == undeclared_saved(class_name@, saved@, defs.deep_view()),
{
    let mut r: Vec<bool> = Vec::new();
    for i in 0..saved.len()
        invariant
            r@.len() == i,
            forall|k: int|
                #![trigger r@[k]]
                0 <= k < i ==> r@[k] == undeclared_saved(class_name@, saved@, defs.deep_view())[k],
    {
        let name = cat2("state", decimal_usize(i).as_str());
        r.push(declared_field_type(defs, class_name, name.as_str()).is_none());
    }
    assert(r.deep_view() =~= undeclared_saved(class_name@, saved@, defs.deep_view()));
    r
}

/// How many of the first fields have values in the JVM.
pub open spec fn valued_before(fields: Seq<Field>, n: nat) -> nat
    decreases n,
{
    if n == 0 || n > fields.len() {
        0
    } else {
        valued_before(fields, (n - 1) as nat) + if has_value(lowered(fields[n - 1].ty)) {
            1nat
        } else {
            0nat
        }
    }
}

/// The fields of the class of a variant: those with JVM values, numbered one after the other.
pub open spec fn slots_of_variant(fields: Seq<Field>) -> Seq<Option<SlotModel>> {
    Seq::new(
        fields.len(),
        |i: int|
            valued_slot(
                "field"@ + decimal_text(valued_before(fields, i as nat)),
                lowered(fields[i].ty),
            ),
    )
}

/// The fields of the class of a variant.
pub fn plan_variant_slots(fields: &Vec<Field>) -> (r: Vec<Option<Slot>>)
    ensures
        r.deep_view() == slots_of_variant(fields@),
{
    let mut r: Vec<Option<Slot>> = Vec::new();
    let mut count: usize = 0;
    let ghost whole = slots_of_variant(fields@);
    for i in 0..fields.len()
        invariant
            whole == slots_of_variant(fields@),
            r@.len() == i,
            count <= i,
            count == valued_before(fields@, i as nat),
            forall|k: int| #![trigger r@[k]] 0 <= k < i ==> r@[k].deep_view() == whole[k],
    {
        let ty = fields[i].ty.jvm_type();
        let valued: bool = ty.has_jvm_value();
        r.push(make_slot(cat2("field", decimal_usize(count).as_str()), ty));
        if valued {
            count = count + 1;
        }
    }
    assert(r.deep_view() =~= whole);
    r
}

/// The fields of a coroutine that hold its saved values.
pub open spec fn slots_of_saved(
    class_name: Text,
    saved: Seq<RustType>,
    defs: DefinitionsModel,
) -> Seq<Option<SlotModel>> {
    Seq::new(
        saved.len(),
        |i: int|
            valued_slot(
                "state"@ + decimal_text(i as nat),
                carrier_type(defs, class_name, "state"@ + decimal_text(i as nat), saved[i]),
            ),
    )
}

/// The fields of a coroutine that hold its saved values.
pub fn plan_saved_slots(class_name: &str, saved: &Vec<RustType>, defs: &Definitions) -> (r: Vec<
    Option<Slot>,
>)
    ensures
        r.deep_view() == slots_of_saved(class_name@, saved@, defs.deep_view()),
{
    let mut r: Vec<Option<Slot>> = Vec::new();
    let ghost whole = slots_of_saved(class_name@, saved@, defs.deep_view());
    for i in 0..saved.len()
        invariant
            whole == slots_of_saved(class_name@, saved@, defs.deep_view()),
            r@.len() == i,
            forall|k: int| #![trigger r@[k]] 0 <= k < i ==> r@[k].deep_view() == whole[k],
    {
        let name = cat2("state", decimal_usize(i).as_str());
        let ty = carrier_field_type(defs, class_name, name.as_str(), &saved[i]);
        r.push(make_slot(name, ty));
    }
    assert(r.deep_view() =~= whole);
    r
}

/// How many parts have a field.
pub open spec fn slot_count(slots: Seq<Option<SlotModel>>) -> nat
    decreases slots.len(),
{
    if slots.len() == 0 {
        0
    } else {
        slot_count(slots.drop_last()) + if slots.last() is Some {
            1nat
        } else {
            0nat
        }
    }
}

/// Whether more than one part has a field.
pub open spec fn is_split(slots: Seq<Option<SlotModel>>) -> bool {
    slot_count(slots) > 1
}

/// Whether more than one part has a field.
pub fn has_several_slots(slots: &Vec<Option<Slot>>) -> (r: bool)
    ensures
        r == is_split(slots.deep_view()),
{
    let mut count: usize = 0;
    let ghost model = slots.deep_view();
    for i in 0..slots.len()
        invariant
            model == slots.deep_view(),
            count <= i,
            count == slot_count(model.take(i as int)),
    {
        assert(model.take(i + 1).drop_last() =~= model.take(i as int));
        assert(model.take(i + 1).last() == slots@[i as int].deep_view());
        if slots[i].is_some() {
            count = count + 1;
        }
    }
    assert(model.take(slots@.len() as int) =~= model);
    count > 1
}

/// The field of one part.
pub open spec fn slot_at(slots: Seq<Option<SlotModel>>, index: usize) -> Option<SlotModel> {
    if index < slots.len() {
        slots[index as int]
    } else {
        None
    }
}

/// The field of one part.
pub fn get_slot(slots: &Vec<Option<Slot>>, index: usize) -> (r: Option<Slot>)
    ensures
        r.deep_view() == slot_at(slots.deep_view(), index),
{
    if index < slots.len() {
        slots[index].dup()
    } else {
        None
    }
}

/// Whether the bytes of all fields from one on are known.
pub open spec fn exact_fields(fields: Seq<Field>, from: nat, skip_dynamic: bool) -> Result<(), Text>
    decreases fields, 0nat, fields.len() - from,
{
    if from >= fields.len() {
        Ok(())
    } else if skip_dynamic && is_dynamic(fields[from as int].ty) {
        exact_fields(fields, from + 1, skip_dynamic)
    } else {
        match exact_bytes(fields[from as int].ty) {
            Err(reason) => Err(reason),
            Ok(_) => exact_fields(fields, from + 1, skip_dynamic),
        }
    }
}

/// Whether the bytes of all fields of the variants from one on are known.
pub open spec fn exact_variants(variants: Seq<Variant>, from: nat) -> Result<(), Text>
    decreases variants, 0nat, variants.len() - from,
{
    if from >= variants.len() {
        Ok(())
    } else {
        match exact_fields(variants[from as int].fields@, 0, true) {
            Err(reason) => Err(reason),
            Ok(_) => exact_variants(variants, from + 1),
        }
    }
}

/// Whether the bytes of all types from one on are known.
pub open spec fn exact_types(types: Seq<RustType>, from: nat) -> Result<(), Text>
    decreases types, 0nat, types.len() - from,
{
    if from >= types.len() {
        Ok(())
    } else {
        match exact_bytes(types[from as int]) {
            Err(reason) => Err(reason),
            Ok(_) => exact_types(types, from + 1),
        }
    }
}

/// Whether every byte of a value is known, or why not. Types without bytes and pointers always
/// are; trait objects at the end of a struct are left out.
pub open spec fn exact_bytes(ty: RustType) -> Result<(), Text>
    decreases ty, 1nat, 0nat,
{
    match ty.size {
        Err(reason) => Err(reason@),
        Ok(size) => if size == 0 {
            Ok(())
        } else {
            match ty.kind {
                TypeKind::Bool => Ok(()),
                TypeKind::Char => Ok(()),
                TypeKind::Int(_) => Ok(()),
                TypeKind::Uint(_) => Ok(()),
                TypeKind::Float(_) => Ok(()),
                TypeKind::RawPtr { .. } => Ok(()),
                TypeKind::Ref { .. } => Ok(()),
                TypeKind::FnPtr { .. } => Ok(()),
                TypeKind::Pat(inner) => exact_bytes(*inner),
                TypeKind::Tuple { elements, .. } => exact_fields(elements@, 0, false),
                TypeKind::Closure { captures, .. } => exact_fields(captures@, 0, false),
                TypeKind::Coroutine(coroutine) => match exact_fields(
                    coroutine.captures@,
                    0,
                    false,
                ) {
                    Err(reason) => Err(reason),
                    Ok(_) => match coroutine.layout {
                        Err(reason) => Err(reason@),
                        Ok(layout) => exact_types(layout.saved@, 0),
                    },
                },
                TypeKind::Array { element, length } => match length {
                    None => Err("array length is not concrete for "@ + ty.text@),
                    Some(_) => exact_bytes(*element),
                },
                TypeKind::Adt(adt) => exact_variants(adt.variants@, 0),
                _ => Err("type "@ + ty.text@ + NOT_EXACT@),
            }
        },
    }
}

/// Why a type has no exact bytes.
pub const NOT_EXACT: &'static str = " is not fully byte-addressable; references, raw pointers, and JVM object carriers need an explicit bit representation";

fn check_exact_fields(fields: &Vec<Field>, skip_dynamic: bool) -> (r: Result<(), String>)
    ensures
        unit_outcome(r) == exact_fields(fields@, 0, skip_dynamic),
    decreases fields@, 0nat,
{
    for i in 0..fields.len()
        invariant
            exact_fields(fields@, i as nat, skip_dynamic) == exact_fields(fields@, 0, skip_dynamic),
    {
        if !(skip_dynamic && is_trait_object(&fields[i].ty)) {
            match exact_bytes_supported(&fields[i].ty) {
                Err(reason) => {
                    return Err(reason);
                },
                Ok(_) => {},
            }
        }
    }
    Ok(())
}

fn check_exact_variants(variants: &Vec<Variant>) -> (r: Result<(), String>)
    ensures
        unit_outcome(r) == exact_variants(variants@, 0),
    decreases variants@, 0nat,
{
    for i in 0..variants.len()
        invariant
            exact_variants(variants@, i as nat) == exact_variants(variants@, 0),
    {
        match check_exact_fields(&variants[i].fields, true) {
            Err(reason) => {
                return Err(reason);
            },
            Ok(_) => {},
        }
    }
    Ok(())
}

fn check_exact_types(types: &Vec<RustType>) -> (r: Result<(), String>)
    ensures
        unit_outcome(r) == exact_types(types@, 0),
    decreases types@, 0nat,
{
    for i in 0..types.len()
        invariant
            exact_types(types@, i as nat) == exact_types(types@, 0),
    {
        match exact_bytes_supported(&types[i]) {
            Err(reason) => {
                return Err(reason);
            },
            Ok(_) => {},
        }
    }
    Ok(())
}

/// Whether every byte of a value is known, or why not.
pub fn exact_bytes_supported(ty: &RustType) -> (r: Result<(), String>)
    ensures
        unit_outcome(r) == exact_bytes(*ty),
    decreases ty, 1nat,
{
    match &ty.size {
        Err(reason) => Err(reason.clone()),
        Ok(size) => {
            if *size == 0 {
                return Ok(());
            }
            match &ty.kind {
                TypeKind::Bool | TypeKind::Char | TypeKind::Int(_) | TypeKind::Uint(_)
                | TypeKind::Float(_) | TypeKind::RawPtr { .. } | TypeKind::Ref { .. }
                | TypeKind::FnPtr { .. } => Ok(()),
                TypeKind::Pat(inner) => exact_bytes_supported(inner),
                TypeKind::Tuple { elements, .. } => check_exact_fields(elements, false),
                TypeKind::Closure { captures, .. } => check_exact_fields(captures, false),
                TypeKind::Coroutine(coroutine) => match check_exact_fields(
                    &coroutine.captures,
                    false,
                ) {
                    Err(reason) => Err(reason),
                    Ok(_) => match &coroutine.layout {
                        Err(reason) => Err(reason.clone()),
                        Ok(layout) => check_exact_types(&layout.saved),
                    },
                },
                TypeKind::Array { element, length } => match length {
                    None => Err(cat2("array length is not concrete for ", ty.text.as_str())),
                    Some(_) => exact_bytes_supported(element),
                },
                TypeKind::Adt(adt) => check_exact_variants(&adt.variants),
                _ => Err(cat3("type ", ty.text.as_str(), NOT_EXACT)),
            }
        },
    }
}

/// Whether a value holds other values that pointers can look into.
pub open spec fn is_nested(ty: RustType) -> bool
    decreases ty,
{
    match ty.kind {
        TypeKind::Tuple { elements, .. } => elements@.len() > 0,
        TypeKind::Array { .. } => true,
        TypeKind::Closure { .. } => true,
        TypeKind::Adt(_) => true,
        TypeKind::Pat(inner) => is_nested(*inner),
        _ => false,
    }
}

/// Whether a value holds other values that pointers can look into.
pub fn needs_nested_memory_binding(ty: &RustType) -> (r: bool)
    ensures
        r == is_nested(*ty),
    decreases ty,
{
    match &ty.kind {
        TypeKind::Tuple { elements, .. } => elements.len() > 0,
        TypeKind::Array { .. } | TypeKind::Closure { .. } | TypeKind::Adt(_) => true,
        TypeKind::Pat(inner) => needs_nested_memory_binding(inner),
        _ => false,
    }
}

/// The tag of an enum that can be stored.
pub open spec fn tag_check(layout: VariantLayout) -> Result<(), Text> {
    match layout {
        VariantLayout::Empty => Err("uninhabited enums cannot be stored in unions"@),
        VariantLayout::Single { .. } => Ok(()),
        VariantLayout::Direct { size, .. } => size_check(size),
        VariantLayout::Niche { size, .. } => size_check(size),
    }
}

/// Whether a tag has a size that can be stored.
pub open spec fn size_check(size: usize) -> Result<(), Text> {
    if size == 0 || size > 16 {
        Err("unsupported enum tag size: "@ + decimal_text(size as nat) + " bytes"@)
    } else {
        Ok(())
    }
}

/// Whether the tag of an enum can be stored, or why not.
pub fn union_enum_tag(layout: &VariantLayout) -> (r: Result<(), String>)
    ensures
        unit_outcome(r) == tag_check(*layout),
{
    match layout {
        VariantLayout::Empty => Err("uninhabited enums cannot be stored in unions".to_string()),
        VariantLayout::Single { .. } => Ok(()),
        VariantLayout::Direct { size, .. } | VariantLayout::Niche { size, .. } => {
            if *size == 0 || *size > 16 {
                Err(
                    cat3(
                        "unsupported enum tag size: ",
                        decimal_usize(*size).as_str(),
                        " bytes",
                    ),
                )
            } else {
                Ok(())
            }
        },
    }
}

} // verus!
