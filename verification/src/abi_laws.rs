//! What the signatures of calls say, and which types of other modules are defined for one.
use crate::abi::{
    call_abi, call_params, callable_abi, described_defined, erased_type, external_forced,
    external_in_argument, external_in_arguments, external_in_bound, external_in_bounds,
    external_in_fields, external_in_type, external_in_types, forced, is_defined_here, is_thin,
    pointer_signature, type_lowered, valued_params,
};
use crate::code::DefinitionsModel;
use crate::descriptor::{method_descriptor, parameter_descriptors};
use crate::lowering::{adt_defined, call_interface_defined, type_defined};
use crate::lowering_laws::{with_argument, with_type};
use crate::oomir::{Text, Type, TypeModel, has_value};
use crate::rust_type::{Adt, Bound, CallShape, Field, GenericArg, RustType, TypeKind, lowered};
use vstd::prelude::*;
use vstd::string::*;

verus! {

/// The types of fields.
pub open spec fn types_of(fields: Seq<Field>) -> Seq<RustType> {
    fields.map_values(|field: Field| field.ty)
}

/// The types among generic arguments.
pub open spec fn type_arguments(arguments: Seq<GenericArg>) -> Seq<RustType> {
    arguments.filter(|argument: GenericArg| argument is Type).map_values(
        |argument: GenericArg| argument->Type_0,
    )
}

/// The types that a bound of a trait object names.
pub open spec fn types_in_bound(bound: Bound) -> Seq<RustType> {
    match bound {
        Bound::Trait { arguments, .. } => type_arguments(arguments@),
        Bound::Projection { arguments, term, .. } => type_arguments(arguments@) + type_arguments(
            seq![*term],
        ),
        Bound::AutoTrait { .. } => Seq::empty(),
    }
}

/// The types that the first bounds of a trait object name.
pub open spec fn types_in_bounds(bounds: Seq<Bound>) -> Seq<RustType>
    decreases bounds.len(),
{
    if bounds.len() == 0 {
        Seq::empty()
    } else {
        types_in_bounds(bounds.drop_last()) + types_in_bound(bounds.last())
    }
}

/// The types that a type is made of, in the order in which it names them.
pub open spec fn parts_of(ty: RustType) -> Seq<RustType> {
    match ty.kind {
        TypeKind::Pat(inner) => seq![*inner],
        TypeKind::Ref { pointee, .. } => seq![*pointee],
        TypeKind::RawPtr { pointee, .. } => seq![*pointee],
        TypeKind::Array { element, .. } => seq![*element],
        TypeKind::Slice(element) => seq![*element],
        TypeKind::Tuple { elements, .. } => types_of(elements@),
        TypeKind::Adt(adt) => type_arguments(adt.arguments@),
        TypeKind::Closure { captures, arguments, .. } => types_of(captures@) + type_arguments(
            arguments@,
        ),
        TypeKind::Coroutine(coroutine) => types_of(coroutine.captures@) + type_arguments(
            coroutine.arguments@,
        ),
        TypeKind::Dynamic(dynamic) => types_in_bounds(dynamic.bounds@),
        TypeKind::FnPtr { inputs, output, .. } => inputs@ + seq![*output],
        TypeKind::FnDef { arguments, .. } => type_arguments(arguments@),
        _ => Seq::empty(),
    }
}

/// What looking for types of other modules in one part does.
pub open spec fn with_externals() -> spec_fn(DefinitionsModel, RustType) -> DefinitionsModel {
    |defs: DefinitionsModel, ty: RustType| external_in_type(ty, defs)
}

proof fn fold_of_one(ty: RustType, defs: DefinitionsModel)
    ensures
        seq![ty].fold_left(defs, with_externals()) == external_in_type(ty, defs),
{
    reveal_with_fuel(Seq::fold_left, 3);
    assert(seq![ty].drop_last() =~= Seq::<RustType>::empty());
}

proof fn fold_of_both(a: Seq<RustType>, b: Seq<RustType>, defs: DefinitionsModel)
    ensures
        (a + b).fold_left(defs, with_externals()) == b.fold_left(
            a.fold_left(defs, with_externals()),
            with_externals(),
        ),
{
    (a + b).lemma_fold_left_split(defs, with_externals(), a.len() as int);
    assert((a + b).subrange(0, a.len() as int) =~= a);
    assert((a + b).subrange(a.len() as int, (a + b).len() as int) =~= b);
}

proof fn fields_are_visited(fields: Seq<Field>, from: nat, defs: DefinitionsModel)
    requires
        from <= fields.len(),
    ensures
        external_in_fields(fields, from, defs) == types_of(fields.skip(from as int)).fold_left(
            defs,
            with_externals(),
        ),
    decreases fields.len() - from,
{
    reveal_with_fuel(Seq::fold_left, 2);
    let rest = types_of(fields.skip(from as int));
    if from < fields.len() {
        let ty = fields[from as int].ty;
        assert(rest =~= seq![ty] + types_of(fields.skip((from + 1) as int)));
        fold_of_both(seq![ty], types_of(fields.skip((from + 1) as int)), defs);
        fold_of_one(ty, defs);
        fields_are_visited(fields, from + 1, external_in_type(ty, defs));
    } else {
        assert(rest =~= Seq::<RustType>::empty());
    }
}

proof fn types_are_visited(types: Seq<RustType>, from: nat, defs: DefinitionsModel)
    requires
        from <= types.len(),
    ensures
        external_in_types(types, from, defs) == types.skip(from as int).fold_left(
            defs,
            with_externals(),
        ),
    decreases types.len() - from,
{
    reveal_with_fuel(Seq::fold_left, 2);
    let rest = types.skip(from as int);
    if from < types.len() {
        let ty = types[from as int];
        assert(rest =~= seq![ty] + types.skip((from + 1) as int));
        fold_of_both(seq![ty], types.skip((from + 1) as int), defs);
        fold_of_one(ty, defs);
        types_are_visited(types, from + 1, external_in_type(ty, defs));
    } else {
        assert(rest =~= Seq::<RustType>::empty());
    }
}

proof fn first_argument_first(argument: GenericArg, rest: Seq<GenericArg>)
    ensures
        type_arguments(seq![argument] + rest) == (match argument {
            GenericArg::Type(ty) => seq![ty] + type_arguments(rest),
            _ => type_arguments(rest),
        }),
        type_arguments(seq![argument]) == (match argument {
            GenericArg::Type(ty) => seq![ty],
            _ => Seq::empty(),
        }),
{
    reveal_with_fuel(Seq::filter, 3);
    let is_type = |argument: GenericArg| argument is Type;
    let one = seq![argument];
    Seq::filter_distributes_over_add(one, rest, is_type);
    assert(one.drop_last() =~= Seq::<GenericArg>::empty());
    assert(one.filter(is_type) =~= if argument is Type {
        one
    } else {
        Seq::empty()
    });
    assert(type_arguments(one + rest) =~= type_arguments(one) + type_arguments(rest));
    assert(type_arguments(one) =~= match argument {
        GenericArg::Type(ty) => seq![ty],
        _ => Seq::empty(),
    });
    assert(Seq::<RustType>::empty() + type_arguments(rest) =~= type_arguments(rest));
}

proof fn arguments_are_visited(arguments: Seq<GenericArg>, from: nat, defs: DefinitionsModel)
    requires
        from <= arguments.len(),
    ensures
        external_in_arguments(arguments, from, defs) == type_arguments(
            arguments.skip(from as int),
        ).fold_left(defs, with_externals()),
    decreases arguments.len() - from,
{
    reveal_with_fuel(Seq::fold_left, 2);
    let rest = arguments.skip(from as int);
    if from < arguments.len() {
        let argument = arguments[from as int];
        let others = arguments.skip((from + 1) as int);
        assert(rest =~= seq![argument] + others);
        first_argument_first(argument, others);
        let next = external_in_argument(argument, defs);
        arguments_are_visited(arguments, from + 1, next);
        if let GenericArg::Type(ty) = argument {
            fold_of_both(seq![ty], type_arguments(others), defs);
            fold_of_one(ty, defs);
        }
    } else {
        reveal_with_fuel(Seq::filter, 2);
        assert(rest =~= Seq::<GenericArg>::empty());
        assert(type_arguments(rest) =~= Seq::<RustType>::empty());
    }
}

proof fn whole_arguments_are_visited(arguments: Seq<GenericArg>, defs: DefinitionsModel)
    ensures
        external_in_arguments(arguments, 0, defs) == type_arguments(arguments).fold_left(
            defs,
            with_externals(),
        ),
{
    arguments_are_visited(arguments, 0, defs);
    assert(arguments.skip(0) =~= arguments);
}

proof fn bound_is_visited(bound: Bound, defs: DefinitionsModel)
    ensures
        external_in_bound(bound, defs) == types_in_bound(bound).fold_left(defs, with_externals()),
{
    reveal_with_fuel(Seq::fold_left, 2);
    match bound {
        Bound::Trait { arguments, .. } => {
            whole_arguments_are_visited(arguments@, defs);
        },
        Bound::Projection { arguments, term, .. } => {
            whole_arguments_are_visited(arguments@, defs);
            let next = external_in_arguments(arguments@, 0, defs);
            first_argument_first(*term, Seq::empty());
            fold_of_both(type_arguments(arguments@), type_arguments(seq![*term]), defs);
            if let GenericArg::Type(ty) = *term {
                fold_of_one(ty, next);
            }
        },
        Bound::AutoTrait { .. } => {},
    }
}

proof fn bounds_split(front: Seq<Bound>, back: Seq<Bound>)
    ensures
        types_in_bounds(front + back) == types_in_bounds(front) + types_in_bounds(back),
    decreases back.len(),
{
    if back.len() == 0 {
        assert(front + back =~= front);
        assert(types_in_bounds(front) + Seq::<RustType>::empty() =~= types_in_bounds(front));
    } else {
        bounds_split(front, back.drop_last());
        assert((front + back).drop_last() =~= front + back.drop_last());
        assert((front + back).last() == back.last());
        assert(types_in_bounds(front + back) =~= types_in_bounds(front) + types_in_bounds(back));
    }
}

proof fn bounds_are_visited(bounds: Seq<Bound>, from: nat, defs: DefinitionsModel)
    requires
        from <= bounds.len(),
    ensures
        external_in_bounds(bounds, from, defs) == types_in_bounds(
            bounds.skip(from as int),
        ).fold_left(defs, with_externals()),
    decreases bounds.len() - from,
{
    reveal_with_fuel(Seq::fold_left, 2);
    let rest = bounds.skip(from as int);
    if from < bounds.len() {
        let bound = bounds[from as int];
        let others = bounds.skip((from + 1) as int);
        assert(rest =~= seq![bound] + others);
        bounds_split(seq![bound], others);
        reveal_with_fuel(types_in_bounds, 3);
        assert(seq![bound].drop_last() =~= Seq::<Bound>::empty());
        assert(types_in_bounds(seq![bound]) =~= types_in_bound(bound));
        fold_of_both(types_in_bound(bound), types_in_bounds(others), defs);
        bound_is_visited(bound, defs);
        bounds_are_visited(bounds, from + 1, external_in_bound(bound, defs));
    } else {
        assert(rest =~= Seq::<Bound>::empty());
    }
}

/// Looking for types of other modules in a type looks into each type that it is made of, in order.
/// A named type is itself defined first, if it is one of another module.
pub proof fn every_part_is_looked_into(ty: RustType, defs: DefinitionsModel)
    ensures
        external_in_type(ty, defs) == parts_of(ty).fold_left(
            match ty.kind {
                TypeKind::Adt(adt) => if adt.defined_here {
                    defs
                } else {
                    forced(ty, defs).0
                },
                _ => defs,
            },
            with_externals(),
        ),
{
    reveal_with_fuel(external_in_type, 2);
    reveal_with_fuel(Seq::fold_left, 2);
    reveal(external_forced);
    match ty.kind {
        TypeKind::Pat(inner) => fold_of_one(*inner, defs),
        TypeKind::Ref { pointee, .. } => fold_of_one(*pointee, defs),
        TypeKind::RawPtr { pointee, .. } => fold_of_one(*pointee, defs),
        TypeKind::Array { element, .. } => fold_of_one(*element, defs),
        TypeKind::Slice(element) => fold_of_one(*element, defs),
        TypeKind::Tuple { elements, .. } => {
            fields_are_visited(elements@, 0, defs);
            assert(elements@.skip(0) =~= elements@);
        },
        TypeKind::Adt(adt) => {
            whole_arguments_are_visited(adt.arguments@, external_forced(ty, adt, defs));
        },
        TypeKind::Closure { captures, arguments, .. } => {
            fields_are_visited(captures@, 0, defs);
            assert(captures@.skip(0) =~= captures@);
            whole_arguments_are_visited(arguments@, external_in_fields(captures@, 0, defs));
            fold_of_both(types_of(captures@), type_arguments(arguments@), defs);
        },
        TypeKind::Coroutine(coroutine) => {
            let captures = coroutine.captures@;
            fields_are_visited(captures, 0, defs);
            assert(captures.skip(0) =~= captures);
            whole_arguments_are_visited(
                coroutine.arguments@,
                external_in_fields(captures, 0, defs),
            );
            fold_of_both(types_of(captures), type_arguments(coroutine.arguments@), defs);
        },
        TypeKind::Dynamic(dynamic) => {
            bounds_are_visited(dynamic.bounds@, 0, defs);
            assert(dynamic.bounds@.skip(0) =~= dynamic.bounds@);
        },
        TypeKind::FnPtr { inputs, output, .. } => {
            types_are_visited(inputs@, 0, defs);
            assert(inputs@.skip(0) =~= inputs@);
            fold_of_both(inputs@, seq![*output], defs);
            fold_of_one(*output, external_in_types(inputs@, 0, defs));
        },
        TypeKind::FnDef { arguments, .. } => {
            whole_arguments_are_visited(arguments@, defs);
        },
        _ => {},
    }
}

proof fn descriptors_agree(inputs: Seq<RustType>, n: nat)
    requires
        n <= inputs.len(),
    ensures
        parameter_descriptors(call_params(inputs).take(n as int)) == parameter_descriptors(
            valued_params(inputs, n),
        ),
    decreases n,
{
    let params = call_params(inputs);
    if n > 0 {
        descriptors_agree(inputs, (n - 1) as nat);
        let front = params.take(n as int);
        assert(front.drop_last() =~= params.take(n - 1));
        assert(front.last() == params[n - 1]);
        let valued = valued_params(inputs, n);
        if has_value(lowered(inputs[n - 1])) {
            assert(valued.drop_last() =~= valued_params(inputs, (n - 1) as nat));
        }
    } else {
        assert(params.take(0) =~= Seq::<(Text, TypeModel)>::empty());
    }
}

/// A function pointer and a callable trait object with the same parameters and the same result are
/// called through methods of the same descriptor: parameters without a value do not count.
pub proof fn callables_share_a_descriptor(ty: RustType, call: CallShape, defs: DefinitionsModel)
    requires
        ty.kind matches TypeKind::FnPtr { inputs, output, .. } && inputs@ == call.inputs@ && *output
            == *call.output,
    ensures
        method_descriptor(pointer_signature(ty, defs).1) == method_descriptor(
            call_abi(call).signature,
        ),
        pointer_signature(ty, defs).1.ret == lowered(*call.output),
        pointer_signature(ty, defs).1.params.len() == call.inputs@.len(),
        forall|i: int|
            0 <= i < call.inputs@.len() ==> (#[trigger] pointer_signature(ty, defs).1.params[i]).1
                == lowered(call.inputs@[i]),
{
    reveal(pointer_signature);
    descriptors_agree(call.inputs@, call.inputs@.len());
    assert(call_params(call.inputs@).take(call.inputs@.len() as int) =~= call_params(
        call.inputs@,
    ));
}

/// Only trait objects that can be called, and pointers to them, are called through an interface;
/// what the call needs is defined, its interface included.
pub proof fn callable_objects_have_an_interface(ty: RustType, defs: DefinitionsModel)
    ensures
        ({
            let object = match ty.kind {
                TypeKind::Ref { pointee, .. } => *pointee,
                TypeKind::RawPtr { pointee, .. } => *pointee,
                _ => ty,
            };
            let (after, found) = callable_abi(ty, defs);
            match object.kind {
                TypeKind::Dynamic(dynamic) => match dynamic.callable {
                    Some(call) => {
                        &&& found matches Some(abi)
                        &&& abi.interface_name == "org/rustlang/runtime/"@
                            + call.interface.local_name@
                        &&& abi.tuple_ty == call.inputs@
                        &&& abi.signature.ret == lowered(*call.output)
                        &&& abi.signature.is_static
                        &&& after == call_interface_defined(
                            call.interface,
                            type_defined(*call.output, call.inputs@.fold_left(defs, with_type())),
                        ).0
                    },
                    None => found is None && after == defs,
                },
                _ => found is None && after == defs,
            }
        }),
{
    reveal(callable_abi);
    if let Some(call) = crate::abi::call_of(ty) {
        crate::lowering_laws::every_type_is_defined(call.inputs@, defs);
    }
}

/// An open type stands for any object and needs nothing; a closed one is what it is lowered to.
pub proof fn open_types_are_erased(ty: RustType, defs: DefinitionsModel)
    ensures
        ty.is_open ==> erased_type(ty, defs) == (defs, Type::Class("java/lang/Object"@)),
        !ty.is_open ==> erased_type(ty, defs) == (type_defined(ty, defs), lowered(ty)),
{
    reveal(erased_type);
    reveal(type_lowered);
}

/// A named type is defined here if it is local to this module, or one of the two libraries that
/// have no module of their own.
pub proof fn own_types_are_defined_here(is_local: bool, crate_name: Text)
    ensures
        is_local ==> is_defined_here(is_local, crate_name),
        is_defined_here(false, "core"@),
        is_defined_here(false, "alloc"@),
        !is_local && crate_name != "core"@ && crate_name != "alloc"@ ==> !is_defined_here(
            is_local,
            crate_name,
        ),
{
}

/// A named type that is defined by force has its class even if it is one of another module; one
/// that is not described has none, and a thin pointer is defined as usual.
pub proof fn forced_types_are_defined(ty: RustType, adt: Adt, defs: DefinitionsModel)
    requires
        ty.kind == TypeKind::Adt(adt),
    ensures
        forced(ty, defs).1 == lowered(ty),
        is_thin(adt) ==> forced(ty, defs).0 == type_defined(ty, defs),
        !is_thin(adt) && adt.is_described ==> forced(ty, defs).0 == adt_defined(
            ty,
            adt,
            adt.arguments@.fold_left(defs, with_argument()),
        ),
        !is_thin(adt) && !adt.is_described ==> forced(ty, defs).0 == adt.arguments@.fold_left(
            defs,
            with_argument(),
        ),
{
    reveal(forced);
    reveal(described_defined);
    reveal(type_lowered);
    crate::lowering_laws::every_argument_is_defined(adt.arguments@, defs);
}

} // verus!
