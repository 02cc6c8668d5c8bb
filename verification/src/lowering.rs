//! The classes and interfaces that the types of a program need.
use crate::classes::{
    call_ensured, class_ensured, class_equality, class_put, constant_method, default_method,
    ensure_call, ensure_class, ensure_equality, ensure_interface, equality_ensured, fields_set,
    function_method, interface_ensured, interface_marked, keep_method, make_class_equality,
    mark_interface, method_kept, method_put, put_class, put_method, set_fields,
};
use crate::code::{
    Definitions, DefinitionsModel, decimal_usize, empty_methods, make_params1, no_methods,
    params1,
};
use crate::codec::{
    first_variant_of, has_no_fields, is_empty_list, is_known_struct, is_laid_out_struct,
    is_non_null, is_non_null_type, no_text, some_text,
};
use crate::definitions::{has_method, is_class, is_class_name, is_defined, methods_of};
use crate::descriptor::OBJECT_CLASS;
use crate::drop_glue::{
    ENUM_DROP_FIELDS_METHOD, MANAGED_DROP_INTERFACE, MANAGED_DROP_METHOD, boxed_type,
    boxed_type_of, drop_actions, drop_glue, first_field, first_field_of, has_first_field,
    has_some_field, is_droppable, make_struct_drop_fields, managed_drop_glue_function,
    push_drop_actions, struct_drop_fields,
};
use crate::enum_class::{
    add_enum_helper_methods, complete_variants, enum_discriminant, enum_factory_kept,
    enum_helpers, holds_at, insert_variant_placeholders, is_held_at, keep_enum_discriminant,
    keep_enum_factory, known_variant_classes, known_variants, put_value, value_put,
    variant_placeholders, variants_completed,
};
use crate::enum_codec::variants_valid;
use crate::layout::{
    SlotNames, adt_valid, all_valid, argument_valid, arguments_valid, bound_valid, bounds_valid,
    coroutine_valid, dynamic_valid, find_undeclared, name_slot, slot_name, types_valid,
    undeclared_fields, valid,
};
use crate::name_map::NameMap;
use crate::oomir::{
    DataTypeMethod, DataTypeMethodModel, Function, FunctionModel, Instruction, InstructionModel,
    Operand, Text, Type, TypeModel, has_value,
};
use crate::pointer_codec::{add_all, all_added};
use crate::rust_type::{
    Adt, Bound, CallInterface, Coroutine, DynamicType, Field, GenericArg, RUNTIME_PACKAGE, Role,
    RustType, Shape, TypeKind, Variant, lowered, objects_size, thin_pointee,
    union_object_storage_size,
};
use crate::text::{cat2, decimal_text};
use crate::union_class::{
    field_methods, make_union_fields, put_field_methods, union_fields, union_size, union_size_of,
};
use crate::union_storage::{add_offsets, offset_sum};
use vstd::prelude::*;
use vstd::string::*;

verus! {

/// The fields of a class, one for each part of a value.
pub open spec fn all_fields(names: SlotNames, fields: Seq<Field>) -> Seq<(Text, TypeModel)> {
    Seq::new(
        fields.len(),
        |i: int| (slot_name(names, i as nat, fields[i]), lowered(fields[i].ty)),
    )
}

fn list_fields(names: SlotNames, fields: &Vec<Field>) -> (r: Vec<(String, Type)>)
    ensures
        r.deep_view() == all_fields(names, fields@),
{
    let mut r: Vec<(String, Type)> = Vec::new();
    let ghost whole = all_fields(names, fields@);
    for i in 0..fields.len()
        invariant
            whole == all_fields(names, fields@),
            r@.len() == i,
            forall|k: int| #![trigger r@[k]] 0 <= k < i ==> r@[k].deep_view() == whole[k],
    {
        r.push((name_slot(names, i, &fields[i]), fields[i].ty.jvm_type()));
    }
    assert(r.deep_view() =~= whole);
    r
}

/// The fields of a class for the first parts of a value, without those that have no JVM value.
pub open spec fn valued_fields(names: SlotNames, fields: Seq<Field>, n: nat) -> Seq<
    (Text, TypeModel),
>
    decreases n,
{
    if n == 0 || n > fields.len() {
        Seq::empty()
    } else {
        let rest = valued_fields(names, fields, (n - 1) as nat);
        let ty = lowered(fields[n - 1].ty);
        if has_value(ty) {
            rest.push((slot_name(names, (n - 1) as nat, fields[n - 1]), ty))
        } else {
            rest
        }
    }
}

fn list_valued_fields(names: SlotNames, fields: &Vec<Field>) -> (r: Vec<(String, Type)>)
    ensures
        r.deep_view() == valued_fields(names, fields@, fields@.len()),
{
    let mut r: Vec<(String, Type)> = Vec::new();
    assert(r.deep_view() =~= valued_fields(names, fields@, 0));
    for i in 0..fields.len()
        invariant
            r.deep_view() == valued_fields(names, fields@, i as nat),
    {
        let ty = fields[i].ty.jvm_type();
        if ty.has_jvm_value() {
            let ghost before = r.deep_view();
            let ghost model = ty.deep_view();
            r.push((name_slot(names, i, &fields[i]), ty));
            assert(r.deep_view() =~= before.push(
                (slot_name(names, i as nat, fields@[i as int]), model),
            ));
        }
    }
    r
}

/// The field of a coroutine that holds the number of its state.
pub open spec fn state_field() -> (Text, TypeModel) {
    ("__state"@, Type::I32)
}

/// Only the field that holds the number of a state.
pub open spec fn state_only() -> Seq<(Text, TypeModel)> {
    params1("__state"@, Type::I32)
}

fn list_state_only() -> (r: Vec<(String, Type)>)
    ensures
        r.deep_view() == state_only(),
{
    make_params1("__state", &Type::I32)
}

/// The fields that hold the first saved values of a coroutine and have a JVM value.
pub open spec fn saved_fields(saved: Seq<RustType>, n: nat) -> Seq<(Text, TypeModel)>
    decreases n,
{
    if n == 0 || n > saved.len() {
        Seq::empty()
    } else {
        let rest = saved_fields(saved, (n - 1) as nat);
        let ty = lowered(saved[n - 1]);
        if has_value(ty) {
            rest.push(("state"@ + decimal_text((n - 1) as nat), ty))
        } else {
            rest
        }
    }
}

/// The fields of the class of a coroutine: captures, the number of its state, and saved values.
pub open spec fn coroutine_fields(coroutine: Coroutine) -> Seq<(Text, TypeModel)> {
    valued_fields(SlotNames::Captures, coroutine.captures@, coroutine.captures@.len()).push(
        state_field(),
    ) + match coroutine.layout {
        Ok(layout) => saved_fields(layout.saved@, layout.saved@.len()),
        Err(_) => Seq::empty(),
    }
}

fn list_coroutine_fields(coroutine: &Coroutine) -> (r: Vec<(String, Type)>)
    ensures
        r.deep_view() == coroutine_fields(*coroutine),
{
    let mut r = list_valued_fields(SlotNames::Captures, &coroutine.captures);
    let ghost before = r.deep_view();
    r.push(("__state".to_string(), Type::I32));
    let ghost first = before.push(state_field());
    assert(r.deep_view() =~= first);
    match &coroutine.layout {
        Ok(layout) => {
            let saved = &layout.saved;
            assert(r.deep_view() =~= first + saved_fields(saved@, 0));
            for i in 0..saved.len()
                invariant
                    r.deep_view() == first + saved_fields(saved@, i as nat),
            {
                let ty = saved[i].jvm_type();
                if ty.has_jvm_value() {
                    let ghost before = r.deep_view();
                    let ghost model = ty.deep_view();
                    r.push((cat2("state", decimal_usize(i).as_str()), ty));
                    assert(r.deep_view() =~= before.push(
                        ("state"@ + decimal_text(i as nat), model),
                    ));
                    assert(r.deep_view() =~= first + saved_fields(saved@, (i + 1) as nat));
                }
            }
        },
        Err(_) => {
            assert(r.deep_view() =~= coroutine_fields(*coroutine));
        },
    }
    r
}

/// Whether a name is that of a class without a method.
pub open spec fn lacks_method(defs: DefinitionsModel, name: Text, method: Text) -> bool {
    is_class(defs, name) && !methods_of(defs, name).dom().contains(method)
}

fn is_without_method(defs: &Definitions, name: &str, method: &str) -> (r: bool)
    ensures
        r == lacks_method(defs.deep_view(), name@, method@),
{
    is_class_name(defs, name) && !has_method(defs, name, method)
}

fn is_box(adt: &Adt) -> (r: bool)
    ensures
        r == (adt.role is OwnedBox),
{
    matches!(adt.role, Role::OwnedBox)
}

fn is_option_type(adt: &Adt) -> (r: bool)
    ensures
        r == (adt.role is OptionEnum),
{
    matches!(adt.role, Role::OptionEnum)
}

fn no_instructions() -> (r: Vec<Instruction>)
    ensures
        r.deep_view() == Seq::<InstructionModel>::empty(),
{
    let r: Vec<Instruction> = Vec::new();
    assert(r.deep_view() =~= Seq::<InstructionModel>::empty());
    r
}

/// The name of the interface through which a function value is called.
pub open spec fn interface_name(interface: CallInterface) -> Text {
    RUNTIME_PACKAGE@ + interface.local_name@
}

fn full_interface_name(interface: &CallInterface) -> (r: String)
    ensures
        r@ == interface_name(*interface),
{
    cat2(RUNTIME_PACKAGE, interface.local_name.as_str())
}

/// Definitions with the interface through which a function value is called; one interface serves
/// all functions with the same descriptor.
#[verifier::opaque]
pub open spec fn call_interface_defined(
    interface: CallInterface,
    defs: DefinitionsModel,
) -> (DefinitionsModel, Text) {
    let defs = call_ensured(interface_name(interface), interface.method.deep_view(), defs);
    (defs, interface_name(interface))
}

/// Defines the interface through which a function value is called; the result is its name.
pub fn ensure_fn_ptr_interface(interface: &CallInterface, defs: &mut Definitions) -> (r: String)
    ensures
        (final(defs).deep_view(), r@) == call_interface_defined(*interface, old(defs).deep_view()),
{
    proof {
        reveal(call_interface_defined);
    }
    ensure_call(full_interface_name(interface).as_str(), &interface.method, defs);
    full_interface_name(interface)
}

/// The class of a type that has to be dropped with the method that drops a value.
#[verifier::opaque]
pub open spec fn drop_defined(
    ty: RustType,
    class_name: Text,
    defs: DefinitionsModel,
) -> DefinitionsModel {
    if !ty.is_open && ty.needs_drop && lacks_method(defs, class_name, MANAGED_DROP_METHOD@) {
        let defs = interface_marked(class_name, MANAGED_DROP_INTERFACE@, defs);
        let defs = method_put(
            class_name,
            MANAGED_DROP_METHOD@,
            (DataTypeMethodModel::Function(drop_glue(class_name, ty.drop_code.deep_view()))),
            defs,
        );
        defs
    } else {
        defs
    }
}

/// Gives the class of a type that has to be dropped the method that drops a value.
pub fn define_managed_drop(ty: &RustType, class_name: &str, defs: &mut Definitions)
    ensures
        final(defs).deep_view() == drop_defined(*ty, class_name@, old(defs).deep_view()),
{
    proof {
        reveal(drop_defined);
    }
    if !ty.is_open && ty.needs_drop && is_without_method(defs, class_name, MANAGED_DROP_METHOD) {
        mark_interface(class_name, MANAGED_DROP_INTERFACE, defs);
        put_method(
            class_name,
            MANAGED_DROP_METHOD,
            function_method(managed_drop_glue_function(class_name, &ty.drop_code)),
            defs,
        );
    } else {

    }
}

/// The definitions that the fields from one on need that have to be dropped.
pub open spec fn dropped_fields_defined(
    fields: Seq<Field>,
    from: nat,
    defs: DefinitionsModel,
) -> DefinitionsModel
    decreases fields, 0nat, fields.len() - from,
{
    if from >= fields.len() {
        defs
    } else {
        let item = fields[from as int];
        if item.ty.needs_drop {
            let defs = type_defined(item.ty, defs);
            dropped_fields_defined(fields, from + 1, defs)
        } else {
            dropped_fields_defined(fields, from + 1, defs)
        }
    }
}

/// Defines what the fields need that have to be dropped.
pub fn define_dropped_fields(fields: &Vec<Field>, defs: &mut Definitions)
    requires
        all_valid(fields@),
    ensures
        final(defs).deep_view() == dropped_fields_defined(fields@, 0, old(defs).deep_view()),
    decreases fields@, 0nat,
{
    let ghost start = dropped_fields_defined(fields@, 0, defs.deep_view());
    for i in 0..fields.len()
        invariant
            all_valid(fields@),
            dropped_fields_defined(fields@, i as nat, defs.deep_view()) == start,
    {
        let item = &fields[i];
        if item.ty.needs_drop {
            proof {
                assert(valid(fields@[i as int].ty));
            }
            define_type(&item.ty, defs);
        } else {

        }
    }
}

/// The definitions that the carriers of the pointer in a box need, from a depth on.
pub open spec fn carriers_defined(
    adt: Adt,
    depth: usize,
    defs: DefinitionsModel,
) -> DefinitionsModel
    decreases adt, 6nat, 0nat,
{
    if depth >= 3 || !has_first_field(adt) {
        defs
    } else {
        let defs = type_defined(first_field(adt).ty, defs);
        match first_field(adt).ty.kind {
            TypeKind::Adt(inner) => {
                let defs = carriers_defined(inner, offset_sum(depth, 1), defs);
                defs
            },
            _ => {
                defs
            },
        }
    }
}

/// Defines what the carriers of the pointer in a box need.
pub fn define_carriers(adt: &Adt, depth: usize, defs: &mut Definitions)
    requires
        adt_valid(*adt),
    ensures
        final(defs).deep_view() == carriers_defined(*adt, depth, old(defs).deep_view()),
    decreases adt, 6nat,
{
    if depth >= 3 || !has_some_field(adt) {

    } else {
        proof {
            assert(all_valid(adt.variants@[0].fields@));
        }
        proof {
            assert(valid(first_field(*adt).ty));
        }
        define_type(&first_field_of(adt).ty, defs);
        match &first_field_of(adt).ty.kind {
            TypeKind::Adt(inner) => {
                proof {
                    assert(adt_valid(*inner));
                }
                define_carriers(inner, add_offsets(depth, 1), defs);
            },
            _ => {

            },
        }
    }
}

/// The definitions that dropping what a box holds needs; those that the given code for slices needs
/// are left to the code.
pub open spec fn boxed_defined(adt: Adt, defs: DefinitionsModel) -> DefinitionsModel
    decreases adt, 7nat, 0nat,
{
    match adt.role {
        Role::OwnedBox => {
            match boxed_type(adt) {
                Some(pointee) => {
                    if pointee.needs_drop {
                        let defs = carriers_defined(adt, 0, defs);
                        match pointee.kind {
                            TypeKind::Dynamic(_) => {
                                defs
                            },
                            TypeKind::Slice(_) => {
                                defs
                            },
                            _ => {
                                let defs = type_defined(pointee, defs);
                                defs
                            },
                        }
                    } else {
                        defs
                    }
                },
                None => {
                    defs
                },
            }
        },
        _ => {
            defs
        },
    }
}

/// Defines what dropping what a box holds needs.
pub fn define_boxed(adt: &Adt, defs: &mut Definitions)
    requires
        adt_valid(*adt),
    ensures
        final(defs).deep_view() == boxed_defined(*adt, old(defs).deep_view()),
    decreases adt, 7nat,
{
    match &adt.role {
        Role::OwnedBox => {
            match &boxed_type_of(adt) {
                Some(pointee) => {
                    if pointee.needs_drop {
                        define_carriers(adt, 0, defs);
                        match &pointee.kind {
                            TypeKind::Dynamic(_) => {

                            },
                            TypeKind::Slice(_) => {

                            },
                            _ => {
                                proof {
                                    assert(argument_valid(adt.arguments@[0]));
                                }
                                define_type(pointee, defs);
                            },
                        }
                    } else {

                    }
                },
                None => {

                },
            }
        },
        _ => {

        },
    }
}

/// The definitions that dropping the parts of a struct needs: those of what a box holds, and those
/// of the fields that have to be dropped.
pub open spec fn struct_drops_defined(adt: Adt, defs: DefinitionsModel) -> DefinitionsModel
    decreases adt, 8nat, 0nat,
{
    let defs = boxed_defined(adt, defs);
    if has_variant(adt) {
        let defs = dropped_fields_defined((adt.variants@[0]).fields@, 0, defs);
        defs
    } else {
        defs
    }
}

/// Defines what dropping the parts of a struct needs.
pub fn define_struct_drops(adt: &Adt, defs: &mut Definitions)
    requires
        adt_valid(*adt), adt.variants@.len() > 0,
    ensures
        final(defs).deep_view() == struct_drops_defined(*adt, old(defs).deep_view()),
    decreases adt, 8nat,
{
    define_boxed(adt, defs);
    if has_some_variant(adt) {
        proof {
            assert(all_valid(adt.variants@[0].fields@));
        }
        define_dropped_fields(&first_variant_of(adt).fields, defs);
    } else {

    }
}

/// What lowering a struct again adds once its class stands and drops its fields: the method that
/// drops a value.
pub open spec fn struct_lowered_again(
    ty: RustType,
    adt: Adt,
    defs: DefinitionsModel,
) -> DefinitionsModel
    decreases adt, 6nat, 0nat,
{
    let defs = defined_arguments(adt.arguments@, 0, defs);
    if adt.defined_here && adt.is_described {
        let defs = equality_ensured(adt.class_name@, defs);
        let defs = drop_defined(ty, adt.class_name@, defs);
        defs
    } else {
        defs
    }
}

/// Adds what lowering a struct again adds once its class stands.
pub fn lower_struct_again(ty: &RustType, adt: &Adt, defs: &mut Definitions)
    requires
        adt_valid(*adt),
    ensures
        final(defs).deep_view() == struct_lowered_again(*ty, *adt, old(defs).deep_view()),
    decreases adt, 6nat,
{
    define_arguments(&adt.arguments, defs);
    if adt.defined_here && adt.is_described {
        ensure_equality(adt.class_name.as_str(), defs);
        define_managed_drop(ty, adt.class_name.as_str(), defs);
    } else {

    }
}

/// The method that drops the fields of a struct, and the definitions that its types need; the class
/// of the struct stands, with a method of that name.
pub open spec fn struct_drop_method(
    ty: RustType,
    adt: Adt,
    class_name: Text,
    slice_drop: Seq<InstructionModel>,
    defs: DefinitionsModel,
) -> (DefinitionsModel, FunctionModel)
    decreases adt, 9nat, 0nat,
{
    let defs = struct_lowered_again(ty, adt, defs);
    let defs = struct_drops_defined(adt, defs);
    (defs, struct_drop_fields(ty, class_name, slice_drop))
}

/// Makes the method that drops the fields of a struct and defines what its types need.
pub fn managed_struct_drop_fields_function(
    ty: &RustType,
    adt: &Adt,
    class_name: &str,
    slice_drop: &Vec<Instruction>,
    defs: &mut Definitions,
) -> (r: Function)
    requires
        adt_valid(*adt),
        ty.kind == TypeKind::Adt(*adt),
        !(adt.shape is Union),
        adt.variants@.len() > 0,
        is_droppable(*ty),
        is_class(old(defs).deep_view(), adt.class_name@),
        !lacks_method(old(defs).deep_view(), adt.class_name@, ENUM_DROP_FIELDS_METHOD@),
    ensures
        (final(defs).deep_view(), r.deep_view()) == struct_drop_method(
            *ty,
            *adt,
            class_name@,
            slice_drop.deep_view(),
            old(defs).deep_view(),
        ),
    decreases adt, 9nat,
{
    lower_struct_again(ty, adt, defs);
    define_struct_drops(adt, defs);
    make_struct_drop_fields(ty, class_name, slice_drop)
}

/// The class of a struct with a destructor with the method that drops its fields: first with one
/// that does nothing, so that its fields can refer to it.
pub open spec fn field_drop_defined(
    ty: RustType,
    adt: Adt,
    defs: DefinitionsModel,
) -> DefinitionsModel
    decreases adt, 10nat, 0nat,
{
    match adt.shape {
        Shape::Struct => {
            if !(adt.role is OwnedBox) && adt.has_destructor && !ty.is_open && lacks_method(
                defs,
                adt.class_name@,
                ENUM_DROP_FIELDS_METHOD@,
            ) {
                let defs = method_put(
                    adt.class_name@,
                    ENUM_DROP_FIELDS_METHOD@,
                    (constant_method(Type::Void, None)),
                    defs,
                );
                let (defs, method) = struct_drop_method(
                    ty,
                    adt,
                    adt.class_name@,
                    Seq::<InstructionModel>::empty(),
                    defs,
                );
                let defs = method_put(
                    adt.class_name@,
                    ENUM_DROP_FIELDS_METHOD@,
                    (DataTypeMethodModel::Function(method)),
                    defs,
                );
                defs
            } else {
                defs
            }
        },
        _ => {
            defs
        },
    }
}

/// Gives the class of a struct with a destructor the method that drops its fields.
pub fn define_field_drop(ty: &RustType, adt: &Adt, defs: &mut Definitions)
    requires
        adt_valid(*adt),
        ty.kind == TypeKind::Adt(*adt),
        !(thin_pointee(adt.role) is Some),
        !(adt.shape is Enum) ==> adt.variants@.len() > 0,
    ensures
        final(defs).deep_view() == field_drop_defined(*ty, *adt, old(defs).deep_view()),
    decreases adt, 10nat,
{
    match &adt.shape {
        Shape::Struct => {
            if !is_box(adt) && adt.has_destructor && !ty.is_open && is_without_method(
                defs,
                adt.class_name.as_str(),
                ENUM_DROP_FIELDS_METHOD,
            ) {
                put_method(
                    adt.class_name.as_str(),
                    ENUM_DROP_FIELDS_METHOD,
                    default_method(&Type::Void),
                    defs,
                );
                let method = managed_struct_drop_fields_function(
                    ty,
                    adt,
                    adt.class_name.as_str(),
                    &no_instructions(),
                    defs,
                );
                put_method(
                    adt.class_name.as_str(),
                    ENUM_DROP_FIELDS_METHOD,
                    function_method(method),
                    defs,
                );
            } else {

            }
        },
        _ => {

        },
    }
}

/// The definitions that the fields of a type from one on need.
pub open spec fn defined_fields(
    fields: Seq<Field>,
    from: nat,
    defs: DefinitionsModel,
) -> DefinitionsModel
    decreases fields, 0nat, fields.len() - from,
{
    if from >= fields.len() {
        defs
    } else {
        let item = fields[from as int];
        let defs = type_defined(item.ty, defs);
        defined_fields(fields, from + 1, defs)
    }
}

/// Defines what the fields of a type need.
pub fn define_fields(fields: &Vec<Field>, defs: &mut Definitions)
    requires
        all_valid(fields@),
    ensures
        final(defs).deep_view() == defined_fields(fields@, 0, old(defs).deep_view()),
    decreases fields@, 0nat,
{
    let ghost start = defined_fields(fields@, 0, defs.deep_view());
    for i in 0..fields.len()
        invariant
            all_valid(fields@),
            defined_fields(fields@, i as nat, defs.deep_view()) == start,
    {
        let item = &fields[i];
        proof {
            assert(valid(fields@[i as int].ty));
        }
        define_type(&item.ty, defs);
    }
}

/// The definitions that types from one on need.
pub open spec fn defined_types(
    types: Seq<RustType>,
    from: nat,
    defs: DefinitionsModel,
) -> DefinitionsModel
    decreases types, 0nat, types.len() - from,
{
    if from >= types.len() {
        defs
    } else {
        let item = types[from as int];
        let defs = type_defined(item, defs);
        defined_types(types, from + 1, defs)
    }
}

/// Defines what types need.
pub fn define_types(types: &Vec<RustType>, defs: &mut Definitions)
    requires
        types_valid(types@),
    ensures
        final(defs).deep_view() == defined_types(types@, 0, old(defs).deep_view()),
    decreases types@, 0nat,
{
    let ghost start = defined_types(types@, 0, defs.deep_view());
    for i in 0..types.len()
        invariant
            types_valid(types@),
            defined_types(types@, i as nat, defs.deep_view()) == start,
    {
        let item = &types[i];
        proof {
            assert(valid(types@[i as int]));
        }
        define_type(item, defs);
    }
}

/// The definitions that the variants of a type from one on need.
pub open spec fn defined_variants(
    variants: Seq<Variant>,
    from: nat,
    defs: DefinitionsModel,
) -> DefinitionsModel
    decreases variants, 0nat, variants.len() - from,
{
    if from >= variants.len() {
        defs
    } else {
        let item = variants[from as int];
        let defs = defined_fields(item.fields@, 0, defs);
        defined_variants(variants, from + 1, defs)
    }
}

/// Defines what the variants of a type need.
pub fn define_variants(variants: &Vec<Variant>, defs: &mut Definitions)
    requires
        variants_valid(variants@),
    ensures
        final(defs).deep_view() == defined_variants(variants@, 0, old(defs).deep_view()),
    decreases variants@, 0nat,
{
    let ghost start = defined_variants(variants@, 0, defs.deep_view());
    for i in 0..variants.len()
        invariant
            variants_valid(variants@),
            defined_variants(variants@, i as nat, defs.deep_view()) == start,
    {
        let item = &variants[i];
        proof {
            assert(all_valid(variants@[i as int].fields@));
        }
        define_fields(&item.fields, defs);
    }
}

/// The definitions that naming generic arguments from one on needs.
pub open spec fn defined_arguments(
    arguments: Seq<GenericArg>,
    from: nat,
    defs: DefinitionsModel,
) -> DefinitionsModel
    decreases arguments, 0nat, arguments.len() - from,
{
    if from >= arguments.len() {
        defs
    } else {
        let item = arguments[from as int];
        let defs = defined_argument(item, defs);
        defined_arguments(arguments, from + 1, defs)
    }
}

/// Defines what naming generic arguments needs.
pub fn define_arguments(arguments: &Vec<GenericArg>, defs: &mut Definitions)
    requires
        arguments_valid(arguments@),
    ensures
        final(defs).deep_view() == defined_arguments(arguments@, 0, old(defs).deep_view()),
    decreases arguments@, 0nat,
{
    let ghost start = defined_arguments(arguments@, 0, defs.deep_view());
    for i in 0..arguments.len()
        invariant
            arguments_valid(arguments@),
            defined_arguments(arguments@, i as nat, defs.deep_view()) == start,
    {
        let item = &arguments[i];
        define_argument(item, defs);
    }
}

/// The definitions that naming a generic argument needs.
pub open spec fn defined_argument(
    argument: GenericArg,
    defs: DefinitionsModel,
) -> DefinitionsModel
    decreases argument, 9nat, 0nat,
{
    match argument {
        GenericArg::Type(ty) => {
            let defs = defined_for_name(ty, defs);
            defs
        },
        _ => {
            defs
        },
    }
}

/// Defines what naming a generic argument needs.
pub fn define_argument(argument: &GenericArg, defs: &mut Definitions)
    requires
        argument_valid(*argument),
    ensures
        final(defs).deep_view() == defined_argument(*argument, old(defs).deep_view()),
    decreases argument, 9nat,
{
    match argument {
        GenericArg::Type(ty) => {
            define_for_name(ty, defs);
        },
        _ => {

        },
    }
}

/// The definitions that naming the elements of a tuple from one on needs.
pub open spec fn defined_names(
    fields: Seq<Field>,
    from: nat,
    defs: DefinitionsModel,
) -> DefinitionsModel
    decreases fields, 0nat, fields.len() - from,
{
    if from >= fields.len() {
        defs
    } else {
        let item = fields[from as int];
        let defs = defined_for_name(item.ty, defs);
        defined_names(fields, from + 1, defs)
    }
}

/// Defines what naming the elements of a tuple needs.
pub fn define_names(fields: &Vec<Field>, defs: &mut Definitions)
    requires
        all_valid(fields@),
    ensures
        final(defs).deep_view() == defined_names(fields@, 0, old(defs).deep_view()),
    decreases fields@, 0nat,
{
    let ghost start = defined_names(fields@, 0, defs.deep_view());
    for i in 0..fields.len()
        invariant
            all_valid(fields@),
            defined_names(fields@, i as nat, defs.deep_view()) == start,
    {
        let item = &fields[i];
        proof {
            assert(valid(fields@[i as int].ty));
        }
        define_for_name(&item.ty, defs);
    }
}

/// The definitions that naming a type needs: those of the parts that are named by what they are
/// represented as.
pub open spec fn defined_for_name(ty: RustType, defs: DefinitionsModel) -> DefinitionsModel
    decreases ty, 7nat, 0nat,
{
    match ty.kind {
        TypeKind::Ref { pointee, .. } => {
            let defs = defined_for_name((*pointee), defs);
            defs
        },
        TypeKind::RawPtr { pointee, .. } => {
            let defs = defined_for_name((*pointee), defs);
            defs
        },
        TypeKind::Array { element, .. } => {
            let defs = defined_for_name((*element), defs);
            defs
        },
        TypeKind::Slice(element) => {
            let defs = defined_for_name((*element), defs);
            defs
        },
        TypeKind::Tuple { elements, .. } => {
            let defs = defined_names(elements@, 0, defs);
            defs
        },
        TypeKind::Adt(adt) => {
            let defs = defined_arguments(adt.arguments@, 0, defs);
            defs
        },
        TypeKind::FnDef { .. } => {
            defs
        },
        _ => {
            let defs = type_defined(ty, defs);
            defs
        },
    }
}

/// Defines what naming a type needs.
pub fn define_for_name(ty: &RustType, defs: &mut Definitions)
    requires
        valid(*ty),
    ensures
        final(defs).deep_view() == defined_for_name(*ty, old(defs).deep_view()),
    decreases ty, 7nat,
{
    match &ty.kind {
        TypeKind::Ref { pointee, .. } => {
            define_for_name(pointee, defs);
        },
        TypeKind::RawPtr { pointee, .. } => {
            define_for_name(pointee, defs);
        },
        TypeKind::Array { element, .. } => {
            define_for_name(element, defs);
        },
        TypeKind::Slice(element) => {
            define_for_name(element, defs);
        },
        TypeKind::Tuple { elements, .. } => {
            define_names(elements, defs);
        },
        TypeKind::Adt(adt) => {
            proof {
                assert(adt_valid(*adt));
            }
            define_arguments(&adt.arguments, defs);
        },
        TypeKind::FnDef { .. } => {

        },
        _ => {
            define_type(ty, defs);
        },
    }
}

/// The definitions that the bounds of a trait object from one on need to be named.
pub open spec fn defined_bound_names(
    bounds: Seq<Bound>,
    from: nat,
    defs: DefinitionsModel,
) -> DefinitionsModel
    decreases bounds, 0nat, bounds.len() - from,
{
    if from >= bounds.len() {
        defs
    } else {
        let item = bounds[from as int];
        let defs = defined_bound_name(item, defs);
        defined_bound_names(bounds, from + 1, defs)
    }
}

/// Defines what naming the bounds of a trait object needs.
pub fn define_bound_names(bounds: &Vec<Bound>, defs: &mut Definitions)
    requires
        bounds_valid(bounds@),
    ensures
        final(defs).deep_view() == defined_bound_names(bounds@, 0, old(defs).deep_view()),
    decreases bounds@, 0nat,
{
    let ghost start = defined_bound_names(bounds@, 0, defs.deep_view());
    for i in 0..bounds.len()
        invariant
            bounds_valid(bounds@),
            defined_bound_names(bounds@, i as nat, defs.deep_view()) == start,
    {
        let item = &bounds[i];
        define_bound_name(item, defs);
    }
}

/// The definitions that naming a bound of a trait object needs.
pub open spec fn defined_bound_name(bound: Bound, defs: DefinitionsModel) -> DefinitionsModel
    decreases bound, 9nat, 0nat,
{
    match bound {
        Bound::Trait { arguments, .. } => {
            let defs = defined_arguments(arguments@, 0, defs);
            defs
        },
        Bound::Projection { arguments, term, .. } => {
            let defs = defined_arguments(arguments@, 0, defs);
            let defs = defined_argument((*term), defs);
            defs
        },
        Bound::AutoTrait { .. } => {
            defs
        },
    }
}

/// Defines what naming a bound of a trait object needs.
pub fn define_bound_name(bound: &Bound, defs: &mut Definitions)
    requires
        bound_valid(*bound),
    ensures
        final(defs).deep_view() == defined_bound_name(*bound, old(defs).deep_view()),
    decreases bound, 9nat,
{
    match bound {
        Bound::Trait { arguments, .. } => {
            define_arguments(arguments, defs);
        },
        Bound::Projection { arguments, term, .. } => {
            define_arguments(arguments, defs);
            define_argument(term, defs);
        },
        Bound::AutoTrait { .. } => {

        },
    }
}

/// Definitions with the interfaces of bounds from one on; those of other modules are left out.
pub open spec fn defined_bounds(
    bounds: Seq<Bound>,
    from: nat,
    defs: DefinitionsModel,
) -> DefinitionsModel
    decreases bounds, 0nat, bounds.len() - from,
{
    if from >= bounds.len() {
        defs
    } else {
        let item = bounds[from as int];
        match item {
            Bound::Trait { interface_name, defined_here, .. } => {
                if defined_here {
                    let defs = interface_ensured(interface_name@, defs);
                    defined_bounds(bounds, from + 1, defs)
                } else {
                    defined_bounds(bounds, from + 1, defs)
                }
            },
            Bound::AutoTrait { interface_name, defined_here, .. } => {
                if defined_here {
                    let defs = interface_ensured(interface_name@, defs);
                    defined_bounds(bounds, from + 1, defs)
                } else {
                    defined_bounds(bounds, from + 1, defs)
                }
            },
            Bound::Projection { .. } => {
                defined_bounds(bounds, from + 1, defs)
            },
        }
    }
}

/// Defines the interfaces of bounds.
pub fn define_bounds(bounds: &Vec<Bound>, defs: &mut Definitions)
    ensures
        final(defs).deep_view() == defined_bounds(bounds@, 0, old(defs).deep_view()),
{
    let ghost start = defined_bounds(bounds@, 0, defs.deep_view());
    for i in 0..bounds.len()
        invariant
            defined_bounds(bounds@, i as nat, defs.deep_view()) == start,
    {
        let item = &bounds[i];
        match item {
            Bound::Trait { interface_name, defined_here, .. } => {
                if *defined_here {
                    ensure_interface(interface_name.as_str(), defs);
                } else {

                }
            },
            Bound::AutoTrait { interface_name, defined_here, .. } => {
                if *defined_here {
                    ensure_interface(interface_name.as_str(), defs);
                } else {

                }
            },
            Bound::Projection { .. } => {

            },
        }
    }
}

/// The definitions that a trait object needs: the interface of its call, or those of its bounds.
pub open spec fn defined_dynamic(dynamic: DynamicType, defs: DefinitionsModel) -> DefinitionsModel
    decreases dynamic, 9nat, 0nat,
{
    match dynamic.callable {
        Some(call) => {
            let defs = defined_types(call.inputs@, 0, defs);
            let defs = type_defined((*call.output), defs);
            let (defs, _name) = call_interface_defined(call.interface, defs);
            defs
        },
        None => {
            let defs = defined_bound_names(dynamic.bounds@, 0, defs);
            let defs = defined_bounds(dynamic.bounds@, 0, defs);
            defs
        },
    }
}

/// Defines what a trait object needs.
pub fn define_dynamic(dynamic: &DynamicType, defs: &mut Definitions)
    requires
        dynamic_valid(*dynamic),
    ensures
        final(defs).deep_view() == defined_dynamic(*dynamic, old(defs).deep_view()),
    decreases dynamic, 9nat,
{
    match &dynamic.callable {
        Some(call) => {
            define_types(&call.inputs, defs);
            define_type(&call.output, defs);
            let _name = ensure_fn_ptr_interface(&call.interface, defs);
        },
        None => {
            define_bound_names(&dynamic.bounds, defs);
            define_bounds(&dynamic.bounds, defs);
        },
    }
}

/// Definitions with the class of a tuple.
#[verifier::opaque]
pub open spec fn tuple_defined(
    ty: RustType,
    class_name: Text,
    elements: Seq<Field>,
    defs: DefinitionsModel,
) -> DefinitionsModel {
    if (defs.dom().contains(class_name)) {
        let defs = equality_ensured(class_name, defs);
        let defs = drop_defined(ty, class_name, defs);
        defs
    } else {
        let methods = no_methods();
        let methods = value_put(
            "eq"@,
            class_equality(all_fields(SlotNames::Elements, elements)),
            methods,
        );
        let defs = class_put(
            class_name,
            all_fields(SlotNames::Elements, elements),
            methods,
            None::<Text>,
            defs,
        );
        let defs = drop_defined(ty, class_name, defs);
        defs
    }
}

/// Defines the class of a tuple.
pub fn define_tuple(
    ty: &RustType,
    class_name: &str,
    elements: &Vec<Field>,
    defs: &mut Definitions,
)
    ensures
        final(defs).deep_view() == tuple_defined(
            *ty,
            class_name@,
            elements@,
            old(defs).deep_view(),
        ),
{
    proof {
        reveal(tuple_defined);
    }
    if is_defined(defs, class_name) {
        ensure_equality(class_name, defs);
        define_managed_drop(ty, class_name, defs);
    } else {
        let mut methods = empty_methods();
        put_value(
            "eq",
            make_class_equality(&list_fields(SlotNames::Elements, elements)),
            &mut methods,
        );
        put_class(
            class_name,
            list_fields(SlotNames::Elements, elements),
            methods,
            &no_text(),
            defs,
        );
        define_managed_drop(ty, class_name, defs);
    }
}

/// Definitions with the class of a closure, after what its captures need.
pub open spec fn closure_defined(
    class_name: Text,
    captures: Seq<Field>,
    defs: DefinitionsModel,
) -> DefinitionsModel
    decreases captures, 5nat, 0nat,
{
    if (defs.dom().contains(class_name)) {
        defs
    } else {
        let defs = defined_fields(captures, 0, defs);
        let methods = no_methods();
        let defs = class_put(
            class_name,
            all_fields(SlotNames::Captures, captures),
            methods,
            (Some(OBJECT_CLASS@)),
            defs,
        );
        defs
    }
}

/// Defines the class of a closure.
pub fn define_closure(class_name: &str, captures: &Vec<Field>, defs: &mut Definitions)
    requires
        all_valid(captures@),
    ensures
        final(defs).deep_view() == closure_defined(class_name@, captures@, old(defs).deep_view()),
    decreases captures@, 5nat,
{
    if is_defined(defs, class_name) {

    } else {
        define_fields(captures, defs);
        let mut methods = empty_methods();
        put_class(
            class_name,
            list_fields(SlotNames::Captures, captures),
            methods,
            &some_text(OBJECT_CLASS),
            defs,
        );
    }
}

/// The definitions that the saved values of a coroutine need.
pub open spec fn saved_defined(coroutine: Coroutine, defs: DefinitionsModel) -> DefinitionsModel
    decreases coroutine, 3nat, 0nat,
{
    match coroutine.layout {
        Ok(layout) => {
            let defs = defined_types(layout.saved@, 0, defs);
            defs
        },
        Err(_) => {
            defs
        },
    }
}

/// Defines what the saved values of a coroutine need.
pub fn define_saved(coroutine: &Coroutine, defs: &mut Definitions)
    requires
        coroutine_valid(*coroutine),
    ensures
        final(defs).deep_view() == saved_defined(*coroutine, old(defs).deep_view()),
    decreases coroutine, 3nat,
{
    match &coroutine.layout {
        Ok(layout) => {
            define_types(&layout.saved, defs);
        },
        Err(_) => {

        },
    }
}

/// Definitions with the class of a coroutine, after what its captures and saved values need.
pub open spec fn coroutine_defined(
    coroutine: Coroutine,
    defs: DefinitionsModel,
) -> DefinitionsModel
    decreases coroutine, 5nat, 0nat,
{
    if (defs.dom().contains(coroutine.class_name@)) {
        defs
    } else {
        let methods = no_methods();
        let defs = class_put(
            coroutine.class_name@,
            state_only(),
            methods,
            (Some(OBJECT_CLASS@)),
            defs,
        );
        let defs = defined_fields(coroutine.captures@, 0, defs);
        let defs = saved_defined(coroutine, defs);
        let defs = fields_set(coroutine.class_name@, coroutine_fields(coroutine), defs);
        defs
    }
}

/// Defines the class of a coroutine.
pub fn define_coroutine(coroutine: &Coroutine, defs: &mut Definitions)
    requires
        coroutine_valid(*coroutine),
    ensures
        final(defs).deep_view() == coroutine_defined(*coroutine, old(defs).deep_view()),
    decreases coroutine, 5nat,
{
    if is_defined(defs, coroutine.class_name.as_str()) {

    } else {
        let mut methods = empty_methods();
        put_class(
            coroutine.class_name.as_str(),
            list_state_only(),
            methods,
            &some_text(OBJECT_CLASS),
            defs,
        );
        define_fields(&coroutine.captures, defs);
        define_saved(coroutine, defs);
        set_fields(coroutine.class_name.as_str(), list_coroutine_fields(coroutine), defs);
    }
}

/// Definitions with the class of a struct: first without fields, so that its fields can refer to
/// it.
pub open spec fn struct_defined(adt: Adt, defs: DefinitionsModel) -> DefinitionsModel
    decreases adt, 5nat, 0nat,
{
    if (defs.dom().contains(adt.class_name@)) {
        let defs = equality_ensured(adt.class_name@, defs);
        defs
    } else if has_variant(adt) {
        let defs = class_ensured(adt.class_name@, false, None::<Text>, defs);
        let defs = defined_fields((adt.variants@[0]).fields@, 0, defs);
        let defs = fields_set(
            adt.class_name@,
            (
                valued_fields(
                    SlotNames::Declared,
                    (adt.variants@[0]).fields@,
                    (adt.variants@[0]).fields@.len(),
                )
            ),
            defs,
        );
        let defs = method_put(
            adt.class_name@,
            "eq"@,
            class_equality(
                (
                    valued_fields(
                        SlotNames::Declared,
                        (adt.variants@[0]).fields@,
                        (adt.variants@[0]).fields@.len(),
                    )
                ),
            ),
            defs,
        );
        defs
    } else {
        defs
    }
}

/// Defines the class of a struct.
pub fn define_struct(adt: &Adt, defs: &mut Definitions)
    requires
        adt_valid(*adt), adt.variants@.len() > 0,
    ensures
        final(defs).deep_view() == struct_defined(*adt, old(defs).deep_view()),
    decreases adt, 5nat,
{
    if is_defined(defs, adt.class_name.as_str()) {
        ensure_equality(adt.class_name.as_str(), defs);
    } else if has_some_variant(adt) {
        proof {
            assert(all_valid(adt.variants@[0].fields@));
        }
        ensure_class(adt.class_name.as_str(), false, &no_text(), defs);
        define_fields(&first_variant_of(adt).fields, defs);
        set_fields(
            adt.class_name.as_str(),
            list_valued_fields(SlotNames::Declared, &first_variant_of(adt).fields),
            defs,
        );
        put_method(
            adt.class_name.as_str(),
            "eq",
            make_class_equality(
                &list_valued_fields(SlotNames::Declared, &first_variant_of(adt).fields),
            ),
            defs,
        );
    } else {

    }
}

/// Whether a type has a variant.
pub open spec fn has_variant(adt: Adt) -> bool {
    adt.variants@.len() > 0
}

fn has_some_variant(adt: &Adt) -> (r: bool)
    ensures
        r == has_variant(*adt),
{
    adt.variants.len() > 0
}

/// Definitions with the class of an enum and those of its variants: first without fields, so that
/// the fields can refer to them.
pub open spec fn enum_defined(ty: RustType, adt: Adt, defs: DefinitionsModel) -> DefinitionsModel
    decreases adt, 5nat, 0nat,
{
    let defs = class_ensured(adt.class_name@, true, None::<Text>, defs);
    let known = known_variants(adt.variants@, adt.class_name@, defs);
    let defs = variant_placeholders(adt.variants@, adt.class_name@, 0, defs);
    let defs = defined_variants(adt.variants@, 0, defs);
    let defs = enum_helpers(adt.class_name@, adt.variants@, (adt.role is OptionEnum), defs);
    let defs = method_kept(
        adt.class_name@,
        ENUM_DROP_FIELDS_METHOD@,
        (constant_method(Type::Void, None)),
        defs,
    );
    let defs = enum_discriminant(adt.class_name@, adt, defs);
    let defs = enum_factory_kept(ty, adt, defs);
    let defs = variants_completed(adt.variants@, adt, known, 0, defs);
    defs
}

/// Defines the class of an enum and those of its variants.
pub fn ensure_enum_data_types(ty: &RustType, adt: &Adt, defs: &mut Definitions)
    requires
        adt_valid(*adt),
    ensures
        final(defs).deep_view() == enum_defined(*ty, *adt, old(defs).deep_view()),
    decreases adt, 5nat,
{
    ensure_class(adt.class_name.as_str(), true, &no_text(), defs);
    let known = known_variant_classes(&adt.variants, adt.class_name.as_str(), defs);
    insert_variant_placeholders(&adt.variants, adt.class_name.as_str(), defs);
    define_variants(&adt.variants, defs);
    add_enum_helper_methods(adt.class_name.as_str(), &adt.variants, is_option_type(adt), defs);
    keep_method(
        adt.class_name.as_str(),
        ENUM_DROP_FIELDS_METHOD,
        default_method(&Type::Void),
        defs,
    );
    keep_enum_discriminant(adt.class_name.as_str(), adt, defs);
    keep_enum_factory(ty, adt, defs);
    complete_variants(&adt.variants, adt, &known, defs);
}

/// The definitions that fields from one on need that a class does not declare.
pub open spec fn undeclared_defined(
    fields: Seq<Field>,
    missing: Seq<bool>,
    from: nat,
    defs: DefinitionsModel,
) -> DefinitionsModel
    decreases fields, 0nat, fields.len() - from,
{
    if from >= fields.len() {
        defs
    } else {
        let item = fields[from as int];
        if holds_at(missing, (from as usize)) {
            let defs = type_defined(item.ty, defs);
            undeclared_defined(fields, missing, from + 1, defs)
        } else {
            undeclared_defined(fields, missing, from + 1, defs)
        }
    }
}

/// Defines what fields need that a class does not declare.
pub fn define_undeclared(fields: &Vec<Field>, missing: &Vec<bool>, defs: &mut Definitions)
    requires
        all_valid(fields@),
    ensures
        final(defs).deep_view() == undeclared_defined(
            fields@,
            missing.deep_view(),
            0,
            old(defs).deep_view(),
        ),
    decreases fields@, 0nat,
{
    let ghost start = undeclared_defined(fields@, missing.deep_view(), 0, defs.deep_view());
    for i in 0..fields.len()
        invariant
            all_valid(fields@),
            undeclared_defined(fields@, missing.deep_view(), i as nat, defs.deep_view()) == start,
    {
        let item = &fields[i];
        if is_held_at(missing, i) {
            proof {
                assert(valid(fields@[i as int].ty));
            }
            define_type(&item.ty, defs);
        } else {

        }
    }
}

/// The definitions that saved values from one on need that the class of a coroutine does not
/// declare.
pub open spec fn undeclared_saved_defined(
    saved: Seq<RustType>,
    missing: Seq<bool>,
    from: nat,
    defs: DefinitionsModel,
) -> DefinitionsModel
    decreases saved, 0nat, saved.len() - from,
{
    if from >= saved.len() {
        defs
    } else {
        let item = saved[from as int];
        if holds_at(missing, (from as usize)) {
            let defs = type_defined(item, defs);
            undeclared_saved_defined(saved, missing, from + 1, defs)
        } else {
            undeclared_saved_defined(saved, missing, from + 1, defs)
        }
    }
}

/// Defines what saved values need that the class of a coroutine does not declare.
pub fn define_undeclared_saved(saved: &Vec<RustType>, missing: &Vec<bool>, defs: &mut Definitions)
    requires
        types_valid(saved@),
    ensures
        final(defs).deep_view() == undeclared_saved_defined(
            saved@,
            missing.deep_view(),
            0,
            old(defs).deep_view(),
        ),
    decreases saved@, 0nat,
{
    let ghost start = undeclared_saved_defined(saved@, missing.deep_view(), 0, defs.deep_view());
    for i in 0..saved.len()
        invariant
            types_valid(saved@),
            undeclared_saved_defined(
                saved@,
                missing.deep_view(),
                i as nat,
                defs.deep_view(),
            ) == start,
    {
        let item = &saved[i];
        if is_held_at(missing, i) {
            proof {
                assert(valid(saved@[i as int]));
            }
            define_type(item, defs);
        } else {

        }
    }
}

/// The definitions that the parts of a closure need, with its class.
pub open spec fn closure_parts_defined(
    class_name: Text,
    captures: Seq<Field>,
    defs: DefinitionsModel,
) -> DefinitionsModel
    decreases captures, 6nat, 0nat,
{
    let defs = closure_defined(class_name, captures, defs);
    let missing = undeclared_fields(SlotNames::Captures, class_name, captures, defs);
    let defs = undeclared_defined(captures, missing, 0, defs);
    defs
}

/// Defines what the parts of a closure need.
pub fn define_closure_parts(class_name: &str, captures: &Vec<Field>, defs: &mut Definitions)
    requires
        all_valid(captures@),
    ensures
        final(defs).deep_view() == closure_parts_defined(
            class_name@,
            captures@,
            old(defs).deep_view(),
        ),
    decreases captures@, 6nat,
{
    define_closure(class_name, captures, defs);
    let missing = find_undeclared(SlotNames::Captures, class_name, captures, defs);
    define_undeclared(captures, &missing, defs);
}

/// The definitions that the parts of a struct need, with those of its name.
pub open spec fn struct_parts_defined(adt: Adt, defs: DefinitionsModel) -> DefinitionsModel
    decreases adt, 6nat, 0nat,
{
    let defs = defined_arguments(adt.arguments@, 0, defs);
    if has_variant(adt) {
        let missing = undeclared_fields(
            SlotNames::Declared,
            adt.class_name@,
            (adt.variants@[0]).fields@,
            defs,
        );
        let defs = undeclared_defined((adt.variants@[0]).fields@, missing, 0, defs);
        defs
    } else {
        defs
    }
}

/// Defines what the parts of a struct need.
pub fn define_struct_parts(adt: &Adt, defs: &mut Definitions)
    requires
        adt_valid(*adt),
    ensures
        final(defs).deep_view() == struct_parts_defined(*adt, old(defs).deep_view()),
    decreases adt, 6nat,
{
    define_arguments(&adt.arguments, defs);
    if has_some_variant(adt) {
        proof {
            assert(all_valid(adt.variants@[0].fields@));
        }
        let missing = find_undeclared(
            SlotNames::Declared,
            adt.class_name.as_str(),
            &first_variant_of(adt).fields,
            defs,
        );
        define_undeclared(&first_variant_of(adt).fields, &missing, defs);
    } else {

    }
}

/// The definitions that the parts of an aggregate need.
pub open spec fn aggregate_defined(ty: RustType, defs: DefinitionsModel) -> DefinitionsModel
    decreases ty, 1nat, 0nat,
{
    match ty.kind {
        TypeKind::Tuple { elements, .. } => {
            let defs = defined_fields(elements@, 0, defs);
            defs
        },
        TypeKind::Closure { class_name, captures, .. } => {
            let defs = closure_parts_defined(class_name@, captures@, defs);
            defs
        },
        TypeKind::Adt(adt) => {
            if is_laid_out_struct(adt) {
                let defs = struct_parts_defined(adt, defs);
                defs
            } else {
                defs
            }
        },
        _ => {
            defs
        },
    }
}

/// Defines what the parts of an aggregate need.
pub fn define_aggregate(ty: &RustType, defs: &mut Definitions)
    requires
        valid(*ty),
    ensures
        final(defs).deep_view() == aggregate_defined(*ty, old(defs).deep_view()),
    decreases ty, 1nat,
{
    match &ty.kind {
        TypeKind::Tuple { elements, .. } => {
            define_fields(elements, defs);
        },
        TypeKind::Closure { class_name, captures, .. } => {
            define_closure_parts(class_name.as_str(), captures, defs);
        },
        TypeKind::Adt(adt) => {
            if is_known_struct(adt) {
                proof {
                    assert(adt_valid(*adt));
                }
                define_struct_parts(adt, defs);
            } else {

            }
        },
        _ => {

        },
    }
}

/// The definitions that a value of a named type needs which is not taken apart: those of the type.
pub open spec fn whole_defined(ty: RustType, adt: Adt, defs: DefinitionsModel) -> DefinitionsModel
    decreases ty, 1nat, 0nat,
{
    if is_laid_out_struct(adt) && !is_non_null(adt) {
        defs
    } else {
        let defs = type_defined(ty, defs);
        defs
    }
}

/// Defines a named type, unless its values are taken apart.
pub fn define_whole(ty: &RustType, adt: &Adt, defs: &mut Definitions)
    requires
        valid(*ty),
    ensures
        final(defs).deep_view() == whole_defined(*ty, *adt, old(defs).deep_view()),
    decreases ty, 1nat,
{
    if is_known_struct(adt) && !is_non_null_type(adt) {

    } else {
        define_type(ty, defs);
    }
}

/// The methods of each field of a union from one on, after what the field needs.
pub open spec fn union_methods(
    fields: Seq<Field>,
    union_class: Text,
    union_size: usize,
    objects_size: usize,
    from: nat,
    defs: DefinitionsModel,
    methods: Map<Text, DataTypeMethodModel>,
) -> (DefinitionsModel, Map<Text, DataTypeMethodModel>)
    decreases fields, 0nat, fields.len() - from,
{
    if from >= fields.len() {
        (defs, methods)
    } else {
        let item = fields[from as int];
        let defs = type_defined(item.ty, defs);
        let (defs, methods) = field_methods(
            item,
            union_class,
            union_size,
            objects_size,
            defs,
            methods,
        );
        union_methods(fields, union_class, union_size, objects_size, from + 1, defs, methods)
    }
}

/// Makes the methods of each field of a union.
#[verifier::rlimit(60)]
pub fn put_union_methods(
    fields: &Vec<Field>,
    union_class: &str,
    union_size: usize,
    objects_size: usize,
    defs: &mut Definitions,
    methods: &mut NameMap<DataTypeMethod>,
)
    requires
        all_valid(fields@),
    ensures
        (final(defs).deep_view(), final(methods).deep_view()) == union_methods(
            fields@,
            union_class@,
            union_size,
            objects_size,
            0,
            old(defs).deep_view(),
            old(methods).deep_view(),
        ),
    decreases fields@, 0nat,
{
    let ghost start = union_methods(
            fields@,
            union_class@,
            union_size,
            objects_size,
            0,
            defs.deep_view(),
            methods.deep_view(),
        );
    for i in 0..fields.len()
        invariant
            all_valid(fields@),
            union_methods(
                fields@,
                union_class@,
                union_size,
                objects_size,
                i as nat,
                defs.deep_view(),
                methods.deep_view(),
            ) == start,
    {
        let item = &fields[i];
        proof {
            assert(valid(fields@[i as int].ty));
        }
        define_type(&item.ty, defs);
        put_field_methods(item, union_class, union_size, objects_size, defs, methods);
    }
}

/// Definitions with the class of a union: a name that is defined stays as it is.
pub open spec fn union_defined(
    ty: RustType,
    adt: Adt,
    defs: DefinitionsModel,
) -> (DefinitionsModel, Text)
    decreases adt, 5nat, 0nat,
{
    if (defs.dom().contains(adt.class_name@)) {
        (defs, adt.class_name@)
    } else if has_variant(adt) {
        let started = no_methods();
        let defs = class_put(adt.class_name@, union_fields(), started, (Some(OBJECT_CLASS@)), defs);
        let methods = no_methods();
        let (defs, methods) = union_methods(
            (adt.variants@[0]).fields@,
            adt.class_name@,
            union_size(ty),
            objects_size(ty, union_size(ty)),
            0,
            defs,
            methods,
        );
        let defs = all_added(adt.class_name@, methods, defs);
        (defs, adt.class_name@)
    } else {
        (defs, adt.class_name@)
    }
}

/// Defines the class of a union unless its name is defined.
pub fn ensure_union_data_type(ty: &RustType, adt: &Adt, defs: &mut Definitions) -> (r: String)
    requires
        adt_valid(*adt), adt.variants@.len() > 0,
    ensures
        (final(defs).deep_view(), r@) == union_defined(*ty, *adt, old(defs).deep_view()),
    decreases adt, 5nat,
{
    if is_defined(defs, adt.class_name.as_str()) {
        adt.class_name.clone()
    } else if has_some_variant(adt) {
        let mut started = empty_methods();
        put_class(
            adt.class_name.as_str(),
            make_union_fields(),
            started,
            &some_text(OBJECT_CLASS),
            defs,
        );
        proof {
            assert(all_valid(adt.variants@[0].fields@));
        }
        let mut methods = empty_methods();
        put_union_methods(
            &first_variant_of(adt).fields,
            adt.class_name.as_str(),
            union_size_of(ty),
            union_object_storage_size(ty, union_size_of(ty)),
            defs,
            &mut methods,
        );
        add_all(adt.class_name.as_str(), methods, defs);
        adt.class_name.clone()
    } else {
        adt.class_name.clone()
    }
}

/// Definitions with the classes of a named type and the methods that drop its values.
pub open spec fn adt_defined(ty: RustType, adt: Adt, defs: DefinitionsModel) -> DefinitionsModel
    decreases adt, 11nat, 0nat,
{
    match adt.shape {
        Shape::Struct => {
            let defs = struct_defined(adt, defs);
            let defs = field_drop_defined(ty, adt, defs);
            let defs = drop_defined(ty, adt.class_name@, defs);
            defs
        },
        Shape::Enum => {
            let defs = enum_defined(ty, adt, defs);
            let defs = drop_defined(ty, adt.class_name@, defs);
            defs
        },
        Shape::Union => {
            let (defs, _name) = union_defined(ty, adt, defs);
            let defs = drop_defined(ty, adt.class_name@, defs);
            defs
        },
    }
}

/// Defines the classes of a named type.
pub fn ensure_adt_data_type(ty: &RustType, adt: &Adt, defs: &mut Definitions)
    requires
        adt_valid(*adt),
        ty.kind == TypeKind::Adt(*adt),
        !(thin_pointee(adt.role) is Some),
        !(adt.shape is Enum) ==> adt.variants@.len() > 0,
    ensures
        final(defs).deep_view() == adt_defined(*ty, *adt, old(defs).deep_view()),
    decreases adt, 11nat,
{
    match &adt.shape {
        Shape::Struct => {
            define_struct(adt, defs);
            define_field_drop(ty, adt, defs);
            define_managed_drop(ty, adt.class_name.as_str(), defs);
        },
        Shape::Enum => {
            ensure_enum_data_types(ty, adt, defs);
            define_managed_drop(ty, adt.class_name.as_str(), defs);
        },
        Shape::Union => {
            let _name = ensure_union_data_type(ty, adt, defs);
            define_managed_drop(ty, adt.class_name.as_str(), defs);
        },
    }
}

/// The definitions that a named type needs: those of its name, and its own if this module makes
/// them.
pub open spec fn named_defined(ty: RustType, adt: Adt, defs: DefinitionsModel) -> DefinitionsModel
    decreases adt, 12nat, 0nat,
{
    let defs = defined_arguments(adt.arguments@, 0, defs);
    if adt.defined_here && adt.is_described {
        let defs = adt_defined(ty, adt, defs);
        defs
    } else {
        defs
    }
}

/// Defines what a named type needs.
pub fn define_named(ty: &RustType, adt: &Adt, defs: &mut Definitions)
    requires
        adt_valid(*adt),
        ty.kind == TypeKind::Adt(*adt),
        !(thin_pointee(adt.role) is Some),
        adt.is_described && !(adt.shape is Enum) ==> adt.variants@.len() > 0,
    ensures
        final(defs).deep_view() == named_defined(*ty, *adt, old(defs).deep_view()),
    decreases adt, 12nat,
{
    define_arguments(&adt.arguments, defs);
    if adt.defined_here && adt.is_described {
        ensure_adt_data_type(ty, adt, defs);
    } else {

    }
}

/// The definitions that a type needs.
pub open spec fn type_defined(ty: RustType, defs: DefinitionsModel) -> DefinitionsModel
    decreases ty, 0nat, 0nat,
{
    match ty.kind {
        TypeKind::Pat(inner) => {
            let defs = type_defined((*inner), defs);
            defs
        },
        TypeKind::Ref { pointee, .. } => {
            let defs = type_defined((*pointee), defs);
            defs
        },
        TypeKind::RawPtr { pointee, .. } => {
            let defs = type_defined((*pointee), defs);
            defs
        },
        TypeKind::Array { element, .. } => {
            let defs = type_defined((*element), defs);
            defs
        },
        TypeKind::Slice(element) => {
            let defs = type_defined((*element), defs);
            defs
        },
        TypeKind::Tuple { class_name, elements } => {
            if is_empty_list(elements@) {
                defs
            } else {
                let defs = defined_fields(elements@, 0, defs);
                let defs = tuple_defined(ty, class_name@, elements@, defs);
                defs
            }
        },
        TypeKind::Adt(adt) => {
            match adt.role {
                Role::NonNull { pointee: Some(pointee) } => {
                    if (*pointee).is_sized {
                        let defs = type_defined((*pointee), defs);
                        defs
                    } else {
                        let defs = named_defined(ty, adt, defs);
                        defs
                    }
                },
                _ => {
                    let defs = named_defined(ty, adt, defs);
                    defs
                },
            }
        },
        TypeKind::Closure { class_name, captures, .. } => {
            let defs = closure_defined(class_name@, captures@, defs);
            defs
        },
        TypeKind::Coroutine(coroutine) => {
            let defs = coroutine_defined(coroutine, defs);
            defs
        },
        TypeKind::Dynamic(dynamic) => {
            let defs = defined_dynamic(dynamic, defs);
            defs
        },
        TypeKind::FnPtr { inputs, output, interface } => {
            let defs = defined_types(inputs@, 0, defs);
            let defs = type_defined((*output), defs);
            let (defs, _name) = call_interface_defined(interface, defs);
            defs
        },
        TypeKind::FnDef { class_name, .. } => {
            let defs = class_ensured(class_name@, false, (Some(OBJECT_CLASS@)), defs);
            defs
        },
        _ => {
            defs
        },
    }
}

/// Defines what a type needs.
pub fn define_type(ty: &RustType, defs: &mut Definitions)
    requires
        valid(*ty),
    ensures
        final(defs).deep_view() == type_defined(*ty, old(defs).deep_view()),
    decreases ty, 0nat,
{
    match &ty.kind {
        TypeKind::Pat(inner) => {
            define_type(inner, defs);
        },
        TypeKind::Ref { pointee, .. } => {
            define_type(pointee, defs);
        },
        TypeKind::RawPtr { pointee, .. } => {
            define_type(pointee, defs);
        },
        TypeKind::Array { element, .. } => {
            define_type(element, defs);
        },
        TypeKind::Slice(element) => {
            define_type(element, defs);
        },
        TypeKind::Tuple { class_name, elements } => {
            if has_no_fields(elements) {

            } else {
                define_fields(elements, defs);
                define_tuple(ty, class_name.as_str(), elements, defs);
            }
        },
        TypeKind::Adt(adt) => {
            proof {
                assert(adt_valid(*adt));
            }
            match &adt.role {
                Role::NonNull { pointee: Some(pointee) } => {
                    if pointee.is_sized {
                        define_type(pointee, defs);
                    } else {
                        define_named(ty, adt, defs);
                    }
                },
                _ => {
                    define_named(ty, adt, defs);
                },
            }
        },
        TypeKind::Closure { class_name, captures, .. } => {
            define_closure(class_name.as_str(), captures, defs);
        },
        TypeKind::Coroutine(coroutine) => {
            define_coroutine(coroutine, defs);
        },
        TypeKind::Dynamic(dynamic) => {
            define_dynamic(dynamic, defs);
        },
        TypeKind::FnPtr { inputs, output, interface } => {
            define_types(inputs, defs);
            define_type(output, defs);
            let _name = ensure_fn_ptr_interface(interface, defs);
        },
        TypeKind::FnDef { class_name, .. } => {
            ensure_class(class_name.as_str(), false, &some_text(OBJECT_CLASS), defs);
        },
        _ => {

        },
    }
}

/// The definitions that dropping the parts of a value needs.
#[verifier::opaque]
pub open spec fn drop_parts_defined(ty: RustType, defs: DefinitionsModel) -> DefinitionsModel {
    match ty.kind {
        TypeKind::Adt(adt) => {
            match adt.shape {
                Shape::Struct => {
                    let defs = struct_drops_defined(adt, defs);
                    defs
                },
                _ => {
                    defs
                },
            }
        },
        TypeKind::Tuple { elements, .. } => {
            let defs = dropped_fields_defined(elements@, 0, defs);
            defs
        },
        TypeKind::Closure { captures, .. } => {
            let defs = dropped_fields_defined(captures@, 0, defs);
            defs
        },
        _ => {
            defs
        },
    }
}

/// Defines what dropping the parts of a value needs.
pub fn define_drop_parts(ty: &RustType, defs: &mut Definitions)
    requires
        valid(*ty), is_droppable(*ty),
    ensures
        final(defs).deep_view() == drop_parts_defined(*ty, old(defs).deep_view()),
{
    proof {
        reveal(drop_parts_defined);
    }
    match &ty.kind {
        TypeKind::Adt(adt) => {
            proof {
                assert(adt_valid(*adt));
            }
            match &adt.shape {
                Shape::Struct => {
                    define_struct_drops(adt, defs);
                },
                _ => {

                },
            }
        },
        TypeKind::Tuple { elements, .. } => {
            define_dropped_fields(elements, defs);
        },
        TypeKind::Closure { captures, .. } => {
            define_dropped_fields(captures, defs);
        },
        _ => {

        },
    }
}

/// Makes the actions that drop a value, and defines what the type and the parts that have to be
/// dropped need.
pub fn managed_drop_actions(
    ty: &RustType,
    value: &Operand,
    slice_drop: &Vec<Instruction>,
    temp_prefix: &str,
    defs: &mut Definitions,
    lists: &mut Vec<Vec<Instruction>>,
)
    requires
        valid(*ty),
        is_droppable(*ty),
    ensures
        final(defs).deep_view() == drop_parts_defined(
            *ty,
            type_defined(*ty, old(defs).deep_view()),
        ),
        final(lists).deep_view() == drop_actions(
            *ty,
            value.deep_view(),
            slice_drop.deep_view(),
            temp_prefix@,
            old(lists).deep_view(),
        ),
{
    define_type(ty, defs);
    define_drop_parts(ty, defs);
    push_drop_actions(ty, value, slice_drop, temp_prefix, lists);
}

/// Lowering a struct whose class stands, with a method that drops its fields, adds at most its
/// equality and the method that drops a value.
pub proof fn lowering_again_adds_the_drop(ty: RustType, adt: Adt, defs: DefinitionsModel)
    requires
        ty.kind == TypeKind::Adt(adt),
        adt.shape is Struct,
        !(thin_pointee(adt.role) is Some),
        defined_arguments(adt.arguments@, 0, defs).dom().contains(adt.class_name@),
        !lacks_method(
            equality_ensured(adt.class_name@, defined_arguments(adt.arguments@, 0, defs)),
            adt.class_name@,
            ENUM_DROP_FIELDS_METHOD@,
        ),
    ensures
        type_defined(ty, defs) == struct_lowered_again(ty, adt, defs),
{
    let named = defined_arguments(adt.arguments@, 0, defs);
    let equal = equality_ensured(adt.class_name@, named);
    assert(type_defined(ty, defs) == named_defined(ty, adt, defs));
    assert(struct_defined(adt, named) == equal);
    assert(field_drop_defined(ty, adt, equal) == equal);
    assert(adt_defined(ty, adt, named) == drop_defined(ty, adt.class_name@, equal));
}

} // verus!
