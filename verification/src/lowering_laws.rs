//! What lowering a type defines.
use crate::classes::interface_ensured;
use crate::code::DefinitionsModel;
use crate::definitions::{is_class, methods_of};
use crate::drop_glue::drop_glue;
use crate::layout::SlotNames;
use crate::lowering::{
    adt_defined, all_fields, call_interface_defined, closure_defined, coroutine_defined,
    coroutine_fields, defined_argument, defined_arguments, defined_bounds, defined_fields,
    defined_for_name, defined_names, defined_types, defined_variants, drop_defined,
    drop_parts_defined, dropped_fields_defined, named_defined, saved_fields, struct_defined,
    tuple_defined, type_defined, valued_fields,
};
use crate::oomir::{
    AdtHelperKindModel, DataTypeMethodModel, DataTypeModel, Text, Type, TypeModel, has_value,
};
use crate::rust_type::{
    Adt, Bound, CallInterface, Coroutine, Field, GenericArg, Role, RustType, TypeKind, Variant,
    lowered,
};
use crate::text::decimal_text;
use vstd::prelude::*;
use vstd::string::*;

verus! {

/// Doing something for each element of a list in order is a fold of it.
proof fn each_in_order<A>(
    list: Seq<A>,
    defs: DefinitionsModel,
    f: spec_fn(DefinitionsModel, A) -> DefinitionsModel,
)
    ensures
        list.fold_left(defs, f) == (if list.len() == 0 {
            defs
        } else {
            list.skip(1).fold_left(f(defs, list[0]), f)
        }),
{
    list.lemma_fold_left_alt(defs, f);
    if list.len() > 0 {
        assert(list.skip(1) =~= list.subrange(1, list.len() as int));
        list.skip(1).lemma_fold_left_alt(f(defs, list[0]), f);
    }
}

/// What defining one field does.
pub open spec fn with_field() -> spec_fn(DefinitionsModel, Field) -> DefinitionsModel {
    |defs: DefinitionsModel, field: Field| type_defined(field.ty, defs)
}

/// What defining one type does.
pub open spec fn with_type() -> spec_fn(DefinitionsModel, RustType) -> DefinitionsModel {
    |defs: DefinitionsModel, ty: RustType| type_defined(ty, defs)
}

/// What defining the fields of one variant does.
pub open spec fn with_variant() -> spec_fn(DefinitionsModel, Variant) -> DefinitionsModel {
    |defs: DefinitionsModel, variant: Variant| variant.fields@.fold_left(defs, with_field())
}

/// What defining one generic argument does: only a type needs anything.
pub open spec fn with_argument() -> spec_fn(DefinitionsModel, GenericArg) -> DefinitionsModel {
    |defs: DefinitionsModel, argument: GenericArg|
        match argument {
            GenericArg::Type(ty) => defined_for_name(ty, defs),
            _ => defs,
        }
}

/// What naming one element of a tuple does.
pub open spec fn with_name() -> spec_fn(DefinitionsModel, Field) -> DefinitionsModel {
    |defs: DefinitionsModel, field: Field| defined_for_name(field.ty, defs)
}

proof fn fields_from(fields: Seq<Field>, from: nat, defs: DefinitionsModel)
    requires
        from <= fields.len(),
    ensures
        defined_fields(fields, from, defs) == fields.skip(from as int).fold_left(defs,
            with_field()),
    decreases fields.len() - from,
{
    let rest = fields.skip(from as int);
    each_in_order(rest, defs, with_field());
    if from < fields.len() {
        assert(rest.skip(1) =~= fields.skip((from + 1) as int));
        fields_from(fields, from + 1, type_defined(fields[from as int].ty, defs));
    }
}

/// The fields of a type are defined one after the other, and none is left out.
pub proof fn every_field_is_defined(fields: Seq<Field>, defs: DefinitionsModel)
    ensures
        defined_fields(fields, 0, defs) == fields.fold_left(defs, with_field()),
{
    fields_from(fields, 0, defs);
    assert(fields.skip(0) =~= fields);
}

proof fn types_from(types: Seq<RustType>, from: nat, defs: DefinitionsModel)
    requires
        from <= types.len(),
    ensures
        defined_types(types, from, defs) == types.skip(from as int).fold_left(defs, with_type()),
    decreases types.len() - from,
{
    let rest = types.skip(from as int);
    each_in_order(rest, defs, with_type());
    if from < types.len() {
        assert(rest.skip(1) =~= types.skip((from + 1) as int));
        types_from(types, from + 1, type_defined(types[from as int], defs));
    }
}

/// Types are defined one after the other, and none is left out.
pub proof fn every_type_is_defined(types: Seq<RustType>, defs: DefinitionsModel)
    ensures
        defined_types(types, 0, defs) == types.fold_left(defs, with_type()),
{
    types_from(types, 0, defs);
    assert(types.skip(0) =~= types);
}

proof fn variants_from(variants: Seq<Variant>, from: nat, defs: DefinitionsModel)
    requires
        from <= variants.len(),
    ensures
        defined_variants(variants, from, defs) == variants.skip(from as int).fold_left(
            defs,
            with_variant(),
        ),
    decreases variants.len() - from,
{
    let rest = variants.skip(from as int);
    each_in_order(rest, defs, with_variant());
    if from < variants.len() {
        assert(rest.skip(1) =~= variants.skip((from + 1) as int));
        every_field_is_defined(variants[from as int].fields@, defs);
        variants_from(
            variants,
            from + 1,
            defined_fields(variants[from as int].fields@, 0, defs),
        );
    }
}

/// The fields of all variants are defined, variant after variant.
pub proof fn every_variant_is_defined(variants: Seq<Variant>, defs: DefinitionsModel)
    ensures
        defined_variants(variants, 0, defs) == variants.fold_left(defs, with_variant()),
{
    variants_from(variants, 0, defs);
    assert(variants.skip(0) =~= variants);
}

proof fn arguments_from(arguments: Seq<GenericArg>, from: nat, defs: DefinitionsModel)
    requires
        from <= arguments.len(),
    ensures
        defined_arguments(arguments, from, defs) == arguments.skip(from as int).fold_left(
            defs,
            with_argument(),
        ),
    decreases arguments.len() - from,
{
    let rest = arguments.skip(from as int);
    each_in_order(rest, defs, with_argument());
    if from < arguments.len() {
        assert(rest.skip(1) =~= arguments.skip((from + 1) as int));
        arguments_from(arguments, from + 1, defined_argument(arguments[from as int], defs));
    }
}

/// What naming generic arguments needs is defined for one after the other.
pub proof fn every_argument_is_defined(arguments: Seq<GenericArg>, defs: DefinitionsModel)
    ensures
        defined_arguments(arguments, 0, defs) == arguments.fold_left(defs, with_argument()),
{
    arguments_from(arguments, 0, defs);
    assert(arguments.skip(0) =~= arguments);
}

proof fn names_from(fields: Seq<Field>, from: nat, defs: DefinitionsModel)
    requires
        from <= fields.len(),
    ensures
        defined_names(fields, from, defs) == fields.skip(from as int).fold_left(defs, with_name()),
    decreases fields.len() - from,
{
    let rest = fields.skip(from as int);
    each_in_order(rest, defs, with_name());
    if from < fields.len() {
        assert(rest.skip(1) =~= fields.skip((from + 1) as int));
        names_from(fields, from + 1, defined_for_name(fields[from as int].ty, defs));
    }
}

/// What a type needs for its name: what its parts need, where it is named by its parts, and all of
/// its own definitions otherwise. A function item needs nothing.
pub proof fn naming_needs_the_parts(ty: RustType, defs: DefinitionsModel)
    ensures
        defined_for_name(ty, defs) == (match ty.kind {
            TypeKind::Ref { pointee, .. } => defined_for_name(*pointee, defs),
            TypeKind::RawPtr { pointee, .. } => defined_for_name(*pointee, defs),
            TypeKind::Array { element, .. } => defined_for_name(*element, defs),
            TypeKind::Slice(element) => defined_for_name(*element, defs),
            TypeKind::Tuple { elements, .. } => elements@.fold_left(defs, with_name()),
            TypeKind::Adt(adt) => adt.arguments@.fold_left(defs, with_argument()),
            TypeKind::FnDef { .. } => defs,
            _ => type_defined(ty, defs),
        }),
{
    reveal_with_fuel(defined_for_name, 2);
    match ty.kind {
        TypeKind::Tuple { elements, .. } => {
            names_from(elements@, 0, defs);
            assert(elements@.skip(0) =~= elements@);
        },
        TypeKind::Adt(adt) => {
            every_argument_is_defined(adt.arguments@, defs);
        },
        _ => {},
    }
}

/// A pointer, an array, a slice and a pattern type need what they are made of, and nothing else.
pub proof fn pointers_need_what_they_point_to(ty: RustType, defs: DefinitionsModel)
    ensures
        match ty.kind {
            TypeKind::Ref { pointee, .. } => type_defined(ty, defs) == type_defined(*pointee, defs),
            TypeKind::RawPtr { pointee, .. } => type_defined(ty, defs) == type_defined(
                *pointee,
                defs,
            ),
            TypeKind::Array { element, .. } => type_defined(ty, defs) == type_defined(
                *element,
                defs,
            ),
            TypeKind::Slice(element) => type_defined(ty, defs) == type_defined(*element, defs),
            TypeKind::Pat(inner) => type_defined(ty, defs) == type_defined(*inner, defs),
            TypeKind::Adt(adt) => match adt.role {
                Role::NonNull { pointee: Some(pointee) } => pointee.is_sized ==> type_defined(
                    ty,
                    defs,
                ) == type_defined(*pointee, defs),
                _ => true,
            },
            _ => true,
        },
{
    reveal_with_fuel(type_defined, 2);
}

/// Scalars and text need no definitions.
pub proof fn scalars_need_nothing(ty: RustType, defs: DefinitionsModel)
    requires
        ty.kind is Bool || ty.kind is Char || ty.kind is Int || ty.kind is Uint || ty.kind is Float
            || ty.kind is Str || ty.kind is Never || ty.kind is Foreign,
    ensures
        type_defined(ty, defs) == defs,
{
    reveal_with_fuel(type_defined, 2);
}

proof fn dropped_from_one_on(fields: Seq<Field>, from: nat, defs: DefinitionsModel)
    requires
        from <= fields.len(),
    ensures
        dropped_fields_defined(fields, from, defs) == fields.skip(from as int).filter(
            |field: Field| field.ty.needs_drop,
        ).fold_left(defs, with_field()),
    decreases fields.len() - from,
{
    let rest = fields.skip(from as int);
    let dropped = |field: Field| field.ty.needs_drop;
    if from < fields.len() {
        let one = seq![fields[from as int]];
        let others = fields.skip((from + 1) as int);
        assert(rest =~= one + others);
        Seq::filter_distributes_over_add(one, others, dropped);
        reveal_with_fuel(Seq::filter, 3);
        assert(one.drop_last() =~= Seq::<Field>::empty());
        if fields[from as int].ty.needs_drop {
            let kept = rest.filter(dropped);
            assert(kept =~= one + others.filter(dropped));
            each_in_order(kept, defs, with_field());
            assert(kept.skip(1) =~= others.filter(dropped));
            dropped_from_one_on(fields, from + 1, type_defined(fields[from as int].ty, defs));
        } else {
            assert(one.filter(dropped) =~= Seq::<Field>::empty());
            assert(rest.filter(dropped) =~= others.filter(dropped));
            dropped_from_one_on(fields, from + 1, defs);
        }
    } else {
        reveal_with_fuel(Seq::filter, 2);
        assert(rest =~= Seq::<Field>::empty());
        each_in_order(rest.filter(dropped), defs, with_field());
    }
}

/// Dropping the parts of a value needs the definitions of exactly the parts that have to be
/// dropped.
pub proof fn every_dropped_field_is_defined(fields: Seq<Field>, defs: DefinitionsModel)
    ensures
        dropped_fields_defined(fields, 0, defs) == fields.filter(
            |field: Field| field.ty.needs_drop,
        ).fold_left(defs, with_field()),
{
    dropped_from_one_on(fields, 0, defs);
    assert(fields.skip(0) =~= fields);
}

/// Whether a class has certain fields, tests for equality by exactly these, and is not abstract.
pub open spec fn has_fields(
    defs: DefinitionsModel,
    name: Text,
    wanted: Seq<(Text, TypeModel)>,
) -> bool {
    &&& defs.dom().contains(name)
    &&& defs[name] matches DataTypeModel::Class { fields, is_abstract, .. }
    &&& fields == wanted
    &&& !is_abstract
}

/// Whether a class tests for equality by certain fields.
pub open spec fn compares_fields(
    defs: DefinitionsModel,
    name: Text,
    wanted: Seq<(Text, TypeModel)>,
) -> bool {
    &&& methods_of(defs, name).dom().contains("eq"@)
    &&& methods_of(defs, name)["eq"@] == (DataTypeMethodModel::AdtHelperMethod {
        kind: AdtHelperKindModel::PartialEqClass { fields: wanted },
    })
}

/// The fields of the class of a tuple: one for each element, numbered from zero.
pub open spec fn fields_of_elements(elements: Seq<Field>) -> Seq<(Text, TypeModel)> {
    Seq::new(
        elements.len(),
        |i: int| ("field"@ + decimal_text(i as nat), lowered(elements[i].ty)),
    )
}

/// The fields of the class of a closure: one for each capture, numbered from zero.
pub open spec fn fields_of_captures(captures: Seq<Field>) -> Seq<(Text, TypeModel)> {
    Seq::new(captures.len(), |i: int| ("arg"@ + decimal_text(i as nat), lowered(captures[i].ty)))
}

/// The fields of the class of a struct: those of its fields that have a value, under their names.
pub open spec fn fields_of_struct(fields: Seq<Field>) -> Seq<(Text, TypeModel)> {
    fields.filter(|field: Field| has_value(lowered(field.ty))).map_values(
        |field: Field| (field.name@, lowered(field.ty)),
    )
}

proof fn valued_are_kept(fields: Seq<Field>, n: nat)
    requires
        n <= fields.len(),
    ensures
        valued_fields(SlotNames::Declared, fields, n) == fields_of_struct(fields.take(n as int)),
    decreases n,
{
    reveal(Seq::filter);
    let front = fields.take(n as int);
    if n > 0 {
        valued_are_kept(fields, (n - 1) as nat);
        assert(front.drop_last() =~= fields.take(n - 1));
        assert(front.last() == fields[n - 1]);
        let pred = |field: Field| has_value(lowered(field.ty));
        assert(front.filter(pred) =~= if pred(front.last()) {
            front.drop_last().filter(pred).push(front.last())
        } else {
            front.drop_last().filter(pred)
        });
        assert(valued_fields(SlotNames::Declared, fields, n) =~= fields_of_struct(front));
    } else {
        assert(front =~= Seq::<Field>::empty());
        assert(valued_fields(SlotNames::Declared, fields, n) =~= fields_of_struct(front));
    }
}

/// What has to be dropped knows how: its class implements the interface of the runtime and has its
/// method, unless it had the method before. The fields and the other methods stay.
pub proof fn dropped_values_have_the_method(ty: RustType, class: Text, defs: DefinitionsModel)
    requires
        is_class(defs, class),
    ensures
        ({
            let after = drop_defined(ty, class, defs);
            let adds = !ty.is_open && ty.needs_drop && !methods_of(defs, class).dom().contains(
                "rustDrop"@,
            );
            &&& !adds ==> after == defs
            &&& adds ==> {
                &&& after.dom() == defs.dom()
                &&& forall|name: Text| name != class ==> #[trigger] after[name] == defs[name]
                &&& defs[class] matches DataTypeModel::Class {
                    fields,
                    is_abstract,
                    methods,
                    super_class,
                    interfaces,
                }
                &&& after[class] matches DataTypeModel::Class {
                    fields: new_fields,
                    is_abstract: still_abstract,
                    methods: new_methods,
                    super_class: new_super,
                    interfaces: new_interfaces,
                }
                &&& new_fields == fields
                &&& still_abstract == is_abstract
                &&& new_super == super_class
                &&& new_interfaces.contains("org/rustlang/runtime/RustDrop"@)
                &&& interfaces.is_prefix_of(new_interfaces)
                &&& new_methods == methods.insert(
                    "rustDrop"@,
                    DataTypeMethodModel::Function(drop_glue(class, ty.drop_code.deep_view())),
                )
            }
        }),
{
    reveal(drop_defined);
    let after = drop_defined(ty, class, defs);
    assert(after.dom() =~= defs.dom());
    if let DataTypeModel::Class { interfaces, .. } = defs[class] {
        assert(interfaces.push("org/rustlang/runtime/RustDrop"@).last()
            == "org/rustlang/runtime/RustDrop"@);
    }
}

/// The class of a tuple that is not defined yet has one field for each element and tests all of
/// them for equality; where the tuple has to be dropped, it knows how.
pub proof fn tuples_have_their_elements(
    ty: RustType,
    class: Text,
    elements: Seq<Field>,
    defs: DefinitionsModel,
)
    requires
        !defs.dom().contains(class),
    ensures
        has_fields(tuple_defined(ty, class, elements, defs), class, fields_of_elements(elements)),
        compares_fields(
            tuple_defined(ty, class, elements, defs),
            class,
            fields_of_elements(elements),
        ),
        !ty.is_open && ty.needs_drop ==> methods_of(
            tuple_defined(ty, class, elements, defs),
            class,
        ).dom().contains("rustDrop"@),
{
    reveal(tuple_defined);
    reveal(drop_defined);
    reveal_strlit("eq");
    reveal_strlit("rustDrop");
    assert("eq"@.len() == 2 && "rustDrop"@.len() == 8);
    assert(all_fields(SlotNames::Elements, elements) =~= fields_of_elements(elements));
}

/// The class of a closure that is not defined yet has one field for each capture, and everything
/// that its captures need is there.
pub proof fn closures_have_their_captures(class: Text, captures: Seq<Field>, defs: DefinitionsModel)
    requires
        !defs.dom().contains(class),
    ensures
        has_fields(closure_defined(class, captures, defs), class, fields_of_captures(captures)),
        forall|name: Text|
            name != class ==> #[trigger] closure_defined(class, captures, defs)[name]
                == captures.fold_left(defs, with_field())[name],
        closure_defined(class, captures, defs).dom() == captures.fold_left(
            defs,
            with_field(),
        ).dom().insert(class),
{
    every_field_is_defined(captures, defs);
    assert(all_fields(SlotNames::Captures, captures) =~= fields_of_captures(captures));
    assert(closure_defined(class, captures, defs).dom() =~= captures.fold_left(
        defs,
        with_field(),
    ).dom().insert(class));
}

/// The class of a struct that is not defined yet has the fields that have a value, under their
/// names, and tests exactly these for equality.
pub proof fn structs_have_their_fields(adt: Adt, defs: DefinitionsModel)
    requires
        !defs.dom().contains(adt.class_name@),
        adt.variants@.len() > 0,
        is_class(struct_defined(adt, defs), adt.class_name@),
    ensures
        ({
            let fields = fields_of_struct(adt.variants@[0].fields@);
            let after = struct_defined(adt, defs);
            &&& after[adt.class_name@] matches DataTypeModel::Class { fields: found, .. }
            &&& found == fields
            &&& compares_fields(after, adt.class_name@, fields)
        }),
{
    let fields = adt.variants@[0].fields@;
    valued_are_kept(fields, fields.len());
    assert(fields.take(fields.len() as int) =~= fields);
}

/// A struct or a tuple whose class is there already keeps it, and can be tested for equality.
pub proof fn known_classes_stay(
    ty: RustType,
    adt: Adt,
    class: Text,
    elements: Seq<Field>,
    defs: DefinitionsModel,
)
    ensures
        is_class(defs, adt.class_name@) ==> {
            let after = struct_defined(adt, defs);
            &&& after.dom() == defs.dom()
            &&& methods_of(after, adt.class_name@).dom().contains("eq"@)
            &&& after[adt.class_name@]->Class_fields == defs[adt.class_name@]->Class_fields
        },
        is_class(defs, class) ==> {
            let after = tuple_defined(ty, class, elements, defs);
            &&& after.dom() == defs.dom()
            &&& methods_of(after, class).dom().contains("eq"@)
            &&& after[class]->Class_fields == defs[class]->Class_fields
        },
{
    reveal(tuple_defined);
    reveal(drop_defined);
    if is_class(defs, adt.class_name@) {
        assert(struct_defined(adt, defs).dom() =~= defs.dom());
    }
    if is_class(defs, class) {
        assert(tuple_defined(ty, class, elements, defs).dom() =~= defs.dom());
    }
}

/// Whether a name and a type stand among fields.
pub open spec fn among(fields: Seq<(Text, TypeModel)>, name: Text, ty: TypeModel) -> bool {
    fields.contains((name, ty))
}

proof fn valued_captures_stand(captures: Seq<Field>, n: nat)
    requires
        n <= captures.len(),
    ensures
        forall|i: int|
            0 <= i < n && has_value(lowered(captures[i].ty)) ==> #[trigger] among(
                valued_fields(SlotNames::Captures, captures, n),
                "arg"@ + decimal_text(i as nat),
                lowered(captures[i].ty),
            ),
    decreases n,
{
    if n > 0 {
        valued_captures_stand(captures, (n - 1) as nat);
        let before = valued_fields(SlotNames::Captures, captures, (n - 1) as nat);
        let after = valued_fields(SlotNames::Captures, captures, n);
        assert forall|i: int|
            0 <= i < n && has_value(lowered(captures[i].ty)) implies #[trigger] among(
            after,
            "arg"@ + decimal_text(i as nat),
            lowered(captures[i].ty),
        ) by {
            let pair = ("arg"@ + decimal_text(i as nat), lowered(captures[i].ty));
            if i < n - 1 {
                assert(among(before, pair.0, pair.1));
                let k = before.index_of(pair);
                assert(after[k] == pair);
            } else {
                assert(after.last() == pair);
            }
        }
    }
}

proof fn saved_values_stand(saved: Seq<RustType>, n: nat)
    requires
        n <= saved.len(),
    ensures
        forall|i: int|
            0 <= i < n && has_value(lowered(saved[i])) ==> #[trigger] among(
                saved_fields(saved, n),
                "state"@ + decimal_text(i as nat),
                lowered(saved[i]),
            ),
    decreases n,
{
    if n > 0 {
        saved_values_stand(saved, (n - 1) as nat);
        let before = saved_fields(saved, (n - 1) as nat);
        let after = saved_fields(saved, n);
        assert forall|i: int| 0 <= i < n && has_value(lowered(saved[i])) implies #[trigger] among(
            after,
            "state"@ + decimal_text(i as nat),
            lowered(saved[i]),
        ) by {
            let pair = ("state"@ + decimal_text(i as nat), lowered(saved[i]));
            if i < n - 1 {
                assert(among(before, pair.0, pair.1));
                let k = before.index_of(pair);
                assert(after[k] == pair);
            } else {
                assert(after.last() == pair);
            }
        }
    }
}

/// The class of a coroutine has a field for each capture and each saved value that have a value,
/// and one for the number of its state.
pub proof fn coroutines_have_their_state(coroutine: Coroutine, defs: DefinitionsModel)
    requires
        !defs.dom().contains(coroutine.class_name@),
        is_class(coroutine_defined(coroutine, defs), coroutine.class_name@),
    ensures
        ({
            let after = coroutine_defined(coroutine, defs);
            let captures = coroutine.captures@;
            &&& after[coroutine.class_name@] matches DataTypeModel::Class { fields, .. }
            &&& among(fields, "__state"@, Type::I32)
            &&& forall|i: int|
                0 <= i < captures.len() && has_value(lowered(captures[i].ty)) ==> #[trigger] among(
                    fields,
                    "arg"@ + decimal_text(i as nat),
                    lowered(captures[i].ty),
                )
            &&& coroutine.layout matches Ok(layout) ==> forall|i: int|
                0 <= i < layout.saved@.len() && has_value(lowered(layout.saved@[i]))
                    ==> #[trigger] among(
                    fields,
                    "state"@ + decimal_text(i as nat),
                    lowered(layout.saved@[i]),
                )
        }),
{
    let captures = coroutine.captures@;
    let fields = coroutine_fields(coroutine);
    let front = valued_fields(SlotNames::Captures, captures, captures.len());
    valued_captures_stand(captures, captures.len());
    assert(fields[front.len() as int] == ("__state"@, Type::<Text>::I32));
    assert forall|i: int|
        0 <= i < captures.len() && has_value(lowered(captures[i].ty)) implies #[trigger] among(
        fields,
        "arg"@ + decimal_text(i as nat),
        lowered(captures[i].ty),
    ) by {
        let pair = ("arg"@ + decimal_text(i as nat), lowered(captures[i].ty));
        assert(among(front, pair.0, pair.1));
        assert(fields[front.index_of(pair)] == pair);
    }
    if let Ok(layout) = coroutine.layout {
        let saved = layout.saved@;
        saved_values_stand(saved, saved.len());
        let back = saved_fields(saved, saved.len());
        assert forall|i: int|
            0 <= i < saved.len() && has_value(lowered(saved[i])) implies #[trigger] among(
            fields,
            "state"@ + decimal_text(i as nat),
            lowered(saved[i]),
        ) by {
            let pair = ("state"@ + decimal_text(i as nat), lowered(saved[i]));
            assert(among(back, pair.0, pair.1));
            assert(fields[front.len() + 1 + back.index_of(pair)] == pair);
        }
    }
}

/// Whether a name is that of an interface with the method through which values are called.
pub open spec fn can_be_called(defs: DefinitionsModel, name: Text) -> bool {
    &&& defs.dom().contains(name)
    &&& (defs[name] matches DataTypeModel::Interface { methods } ==> methods.dom().contains(
        "call"@,
    ))
}

/// A function pointer and a callable trait object have an interface in the package of the runtime,
/// with a method `call`; a new one has the signature that is asked for.
pub proof fn callables_have_their_interface(interface: CallInterface, defs: DefinitionsModel)
    ensures
        ({
            let (after, name) = call_interface_defined(interface, defs);
            &&& name == "org/rustlang/runtime/"@ + interface.local_name@
            &&& can_be_called(after, name)
            &&& !defs.dom().contains(name) ==> after[name] == (DataTypeModel::Interface {
                methods: Map::empty().insert("call"@, interface.method.deep_view()),
            })
            &&& forall|other: Text|
                other != name ==> (after.dom().contains(other) <==> defs.dom().contains(other))
                    && #[trigger] after[other] == defs[other]
        }),
{
    reveal(call_interface_defined);
}

/// The types of function values need what their parameters and their results need, and their
/// interface.
pub proof fn function_types_have_their_interface(ty: RustType, defs: DefinitionsModel)
    ensures
        match ty.kind {
            TypeKind::FnPtr { inputs, output, interface } => can_be_called(
                type_defined(ty, defs),
                "org/rustlang/runtime/"@ + interface.local_name@,
            ) && type_defined(ty, defs) == call_interface_defined(
                interface,
                type_defined(*output, inputs@.fold_left(defs, with_type())),
            ).0,
            TypeKind::FnDef { class_name, .. } => type_defined(ty, defs).dom().contains(
                class_name@,
            ),
            TypeKind::Dynamic(dynamic) => match dynamic.callable {
                Some(call) => can_be_called(
                    type_defined(ty, defs),
                    "org/rustlang/runtime/"@ + call.interface.local_name@,
                ) && type_defined(ty, defs) == call_interface_defined(
                    call.interface,
                    type_defined(*call.output, call.inputs@.fold_left(defs, with_type())),
                ).0,
                None => true,
            },
            _ => true,
        },
{
    reveal_with_fuel(type_defined, 2);
    match ty.kind {
        TypeKind::FnPtr { inputs, output, interface } => {
            every_type_is_defined(inputs@, defs);
            let ready = type_defined(*output, defined_types(inputs@, 0, defs));
            callables_have_their_interface(interface, ready);
        },
        TypeKind::Dynamic(dynamic) => match dynamic.callable {
            Some(call) => {
                every_type_is_defined(call.inputs@, defs);
                let ready = type_defined(*call.output, defined_types(call.inputs@, 0, defs));
                callables_have_their_interface(call.interface, ready);
            },
            None => {},
        },
        _ => {},
    }
}

/// Whether a bound is one of an interface of this module.
pub open spec fn own_interface(bound: Bound) -> Option<Text> {
    match bound {
        Bound::Trait { interface_name, defined_here, .. } => if defined_here {
            Some(interface_name@)
        } else {
            None
        },
        Bound::AutoTrait { interface_name, defined_here } => if defined_here {
            Some(interface_name@)
        } else {
            None
        },
        Bound::Projection { .. } => None,
    }
}

proof fn bounds_from(bounds: Seq<Bound>, from: nat, defs: DefinitionsModel)
    requires
        from <= bounds.len(),
    ensures
        forall|i: int|
            from <= i < bounds.len() ==> (own_interface(#[trigger] bounds[i]) matches Some(name)
                ==> defined_bounds(bounds, from, defs).dom().contains(name)),
        forall|name: Text|
            defs.dom().contains(name) ==> #[trigger] defined_bounds(
                bounds,
                from,
                defs,
            ).dom().contains(name) && defined_bounds(bounds, from, defs)[name] == defs[name],
        forall|name: Text| #[trigger]
            defined_bounds(bounds, from, defs).dom().contains(name) && !defs.dom().contains(name)
                ==> exists|i: int|
                from <= i < bounds.len() && own_interface(#[trigger] bounds[i]) == Some(name),
    decreases bounds.len() - from,
{
    if from < bounds.len() {
        let next = match own_interface(bounds[from as int]) {
            Some(name) => interface_ensured(name, defs),
            None => defs,
        };
        bounds_from(bounds, from + 1, next);
        assert(defined_bounds(bounds, from, defs) == defined_bounds(bounds, from + 1, next));
        assert forall|name: Text| #[trigger]
            defined_bounds(bounds, from, defs).dom().contains(name) && !defs.dom().contains(
                name,
            ) implies exists|i: int|
            from <= i < bounds.len() && own_interface(#[trigger] bounds[i]) == Some(name) by {
            if next.dom().contains(name) {
                assert(own_interface(bounds[from as int]) == Some(name));
            }
        }
    }
}

/// Each interface of this module that a trait object is bound by is defined, nothing else is, and
/// what was defined stays as it was.
pub proof fn bounds_are_defined(bounds: Seq<Bound>, defs: DefinitionsModel)
    ensures
        forall|i: int|
            0 <= i < bounds.len() ==> (own_interface(#[trigger] bounds[i]) matches Some(name)
                ==> defined_bounds(bounds, 0, defs).dom().contains(name)),
        forall|name: Text|
            defs.dom().contains(name) ==> #[trigger] defined_bounds(
                bounds,
                0,
                defs,
            ).dom().contains(name) && defined_bounds(bounds, 0, defs)[name] == defs[name],
        forall|name: Text| #[trigger]
            defined_bounds(bounds, 0, defs).dom().contains(name) && !defs.dom().contains(name)
                ==> exists|i: int|
                0 <= i < bounds.len() && own_interface(#[trigger] bounds[i]) == Some(name),
{
    bounds_from(bounds, 0, defs);
}

/// A named type of another module, or one that is not described, has no class made for it here;
/// what its name needs is defined all the same.
pub proof fn foreign_types_are_left_alone(ty: RustType, adt: Adt, defs: DefinitionsModel)
    ensures
        named_defined(ty, adt, defs) == (if adt.defined_here && adt.is_described {
            adt_defined(ty, adt, adt.arguments@.fold_left(defs, with_argument()))
        } else {
            adt.arguments@.fold_left(defs, with_argument())
        }),
{
    every_argument_is_defined(adt.arguments@, defs);
}

/// Dropping a value needs the definitions of exactly those of its parts that have to be dropped,
/// and of what a box holds.
pub proof fn dropping_needs_the_dropped_parts(ty: RustType, defs: DefinitionsModel)
    ensures
        match ty.kind {
            TypeKind::Tuple { elements, .. } => drop_parts_defined(ty, defs) == elements@.filter(
                |field: Field| field.ty.needs_drop,
            ).fold_left(defs, with_field()),
            TypeKind::Closure { captures, .. } => drop_parts_defined(ty, defs) == captures@.filter(
                |field: Field| field.ty.needs_drop,
            ).fold_left(defs, with_field()),
            TypeKind::Adt(adt) => {
                &&& !(adt.shape is Struct) ==> drop_parts_defined(ty, defs) == defs
                &&& adt.shape is Struct && adt.variants@.len() > 0 && !(adt.role is OwnedBox)
                    ==> drop_parts_defined(ty, defs) == adt.variants@[0].fields@.filter(
                    |field: Field| field.ty.needs_drop,
                ).fold_left(defs, with_field())
            },
            _ => drop_parts_defined(ty, defs) == defs,
        },
{
    reveal(drop_parts_defined);
    match ty.kind {
        TypeKind::Tuple { elements, .. } => every_dropped_field_is_defined(elements@, defs),
        TypeKind::Closure { captures, .. } => every_dropped_field_is_defined(captures@, defs),
        TypeKind::Adt(adt) => {
            if adt.shape is Struct && adt.variants@.len() > 0 {
                every_dropped_field_is_defined(adt.variants@[0].fields@, defs);
            }
        },
        _ => {},
    }
}

} // verus!
