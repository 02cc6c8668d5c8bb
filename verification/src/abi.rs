//! How types appear where functions meet: as lowered types, in signatures and behind interfaces.
use crate::code::{
    Definitions, DefinitionsModel, decimal_usize, make_params0, object_class, object_type,
    params0, static_method, static_signature,
};
use crate::layout::{
    adt_valid, all_valid, argument_valid, arguments_valid, bound_valid, bounds_valid,
    coroutine_valid, dynamic_valid, types_valid, valid,
};
use crate::lowering::{
    adt_defined, call_interface_defined, define_arguments, define_type, define_types,
    defined_arguments, defined_types, ensure_adt_data_type, ensure_fn_ptr_interface,
    interface_name, type_defined,
};
use crate::oomir::{Signature, SignatureModel, Text, Type, TypeModel, has_value};
use crate::rust_type::{
    Adt, Bound, CallShape, Field, GenericArg, RUNTIME_PACKAGE, Role, RustType, TypeKind, lowered,
    thin_pointee,
};
use crate::text::{cat2, decimal_text, same};
use vstd::prelude::*;
use vstd::string::*;

verus! {

/// Whether a module defines the classes of a definition: it is of the crate itself, of `core` or
/// of `alloc`.
pub open spec fn is_defined_here(is_local: bool, crate_name: Text) -> bool {
    is_local || crate_name == "core"@ || crate_name == "alloc"@
}

/// Whether a module defines the classes of a definition.
pub fn should_define_named_data_type(is_local: bool, crate_name: &str) -> (r: bool)
    ensures
        r == is_defined_here(is_local, crate_name@),
{
    is_local || same(crate_name, "core") || same(crate_name, "alloc")
}

/// Whether a type is not settled enough to have a representation of its own.
pub fn has_open_jvm_abi_type(ty: &RustType) -> (r: bool)
    ensures
        r == ty.is_open,
{
    ty.is_open
}

/// A type in its JVM representation, with the definitions that it needs.
#[verifier::opaque]
pub open spec fn type_lowered(
    ty: RustType,
    defs: DefinitionsModel,
) -> (DefinitionsModel, TypeModel) {
    let defs = type_defined(ty, defs);
    (defs, lowered(ty))
}

/// Lowers a type: the result is its JVM representation, and what it needs is defined.
pub fn ty_to_oomir_type(ty: &RustType, defs: &mut Definitions) -> (r: Type)
    requires
        valid(*ty),
    ensures
        (final(defs).deep_view(), r.deep_view()) == type_lowered(*ty, old(defs).deep_view()),
{
    proof {
        reveal(type_lowered);
    }
    define_type(ty, defs);
    RustType::jvm_type(ty)
}

/// Which type stands for a value never depends on what is defined.
pub proof fn lowering_does_not_depend_on_definitions(
    ty: RustType,
    defs: DefinitionsModel,
    other: DefinitionsModel,
)
    ensures
        type_lowered(ty, defs).1 == type_lowered(ty, other).1,
{
    reveal(type_lowered);
}

/// A type in its JVM representation, or the root class while it is open.
#[verifier::opaque]
pub open spec fn erased_type(
    ty: RustType,
    defs: DefinitionsModel,
) -> (DefinitionsModel, TypeModel) {
    if ty.is_open {
        (defs, object_class())
    } else {
        let (defs, lowered_ty) = type_lowered(ty, defs);
        (defs, lowered_ty)
    }
}

/// Lowers a type, or erases it to the root class while it is open.
pub fn ty_to_erased_oomir_type(ty: &RustType, defs: &mut Definitions) -> (r: Type)
    requires
        valid(*ty),
    ensures
        (final(defs).deep_view(), r.deep_view()) == erased_type(*ty, old(defs).deep_view()),
{
    proof {
        reveal(erased_type);
    }
    if ty.is_open {
        object_type()
    } else {
        let lowered_ty = ty_to_oomir_type(ty, defs);
        lowered_ty
    }
}

/// The parameters of a function pointer.
pub open spec fn call_params(inputs: Seq<RustType>) -> Seq<(Text, TypeModel)> {
    Seq::new(inputs.len(), |i: int| ("arg"@ + decimal_text(i as nat), lowered(inputs[i])))
}

fn make_call_params(inputs: &Vec<RustType>) -> (r: Vec<(String, Type)>)
    ensures
        r.deep_view() == call_params(inputs@),
{
    let mut r: Vec<(String, Type)> = Vec::new();
    let ghost whole = call_params(inputs@);
    for i in 0..inputs.len()
        invariant
            whole == call_params(inputs@),
            r@.len() == i,
            forall|k: int| #![trigger r@[k]] 0 <= k < i ==> r@[k].deep_view() == whole[k],
    {
        r.push((cat2("arg", decimal_usize(i).as_str()), inputs[i].jvm_type()));
    }
    assert(r.deep_view() =~= whole);
    r
}

/// The first parameters of a callable trait object, without those that have no JVM value.
pub open spec fn valued_params(inputs: Seq<RustType>, n: nat) -> Seq<(Text, TypeModel)>
    decreases n,
{
    if n == 0 || n > inputs.len() {
        Seq::empty()
    } else {
        let rest = valued_params(inputs, (n - 1) as nat);
        let ty = lowered(inputs[n - 1]);
        if has_value(ty) {
            rest.push(("arg"@ + decimal_text((n - 1) as nat), ty))
        } else {
            rest
        }
    }
}

fn make_valued_params(inputs: &Vec<RustType>) -> (r: Vec<(String, Type)>)
    ensures
        r.deep_view() == valued_params(inputs@, inputs@.len()),
{
    let mut r: Vec<(String, Type)> = Vec::new();
    assert(r.deep_view() =~= valued_params(inputs@, 0));
    for i in 0..inputs.len()
        invariant
            r.deep_view() == valued_params(inputs@, i as nat),
    {
        let ty = inputs[i].jvm_type();
        if ty.has_jvm_value() {
            let ghost before = r.deep_view();
            let ghost model = ty.deep_view();
            r.push((cat2("arg", decimal_usize(i).as_str()), ty));
            assert(r.deep_view() =~= before.push(("arg"@ + decimal_text(i as nat), model)));
        }
    }
    r
}

/// The signature of a function pointer, with the definitions that its types need.
#[verifier::opaque]
pub open spec fn pointer_signature(
    ty: RustType,
    defs: DefinitionsModel,
) -> (DefinitionsModel, SignatureModel) {
    match ty.kind {
        TypeKind::FnPtr { inputs, output, .. } => {
            let defs = defined_types(inputs@, 0, defs);
            let defs = type_defined((*output), defs);
            (defs, static_method(call_params(inputs@), lowered((*output))))
        },
        _ => {
            (defs, static_method(params0(), Type::Void))
        },
    }
}

/// Makes the signature of a function pointer.
pub fn fn_ptr_signature_from_ty(ty: &RustType, defs: &mut Definitions) -> (r: Signature)
    requires
        valid(*ty), ty.kind is FnPtr,
    ensures
        (final(defs).deep_view(), r.deep_view()) == pointer_signature(*ty, old(defs).deep_view()),
{
    proof {
        reveal(pointer_signature);
    }
    match &ty.kind {
        TypeKind::FnPtr { inputs, output, .. } => {
            define_types(inputs, defs);
            define_type(output, defs);
            static_signature(&make_call_params(inputs), &RustType::jvm_type(output))
        },
        _ => {
            static_signature(&make_params0(), &Type::Void)
        },
    }
}

/// How a callable trait object is called.
#[derive(Debug)]
pub struct CallableTraitObjectAbi<'a> {
    /// The types of the tuple of its arguments.
    pub tuple_ty: &'a Vec<RustType>,
    pub signature: Signature,
    pub interface_name: String,
}

/// The model of a [`CallableTraitObjectAbi`].
pub struct CallableTraitObjectAbiModel {
    pub tuple_ty: Seq<RustType>,
    pub signature: SignatureModel,
    pub interface_name: Text,
}

impl<'a> DeepView for CallableTraitObjectAbi<'a> {
    type V = CallableTraitObjectAbiModel;

    open spec fn deep_view(&self) -> CallableTraitObjectAbiModel {
        CallableTraitObjectAbiModel {
            tuple_ty: self.tuple_ty@,
            signature: self.signature.deep_view(),
            interface_name: self.interface_name@,
        }
    }
}

/// How a callable trait object is called.
pub open spec fn call_abi(call: CallShape) -> CallableTraitObjectAbiModel {
    CallableTraitObjectAbiModel {
        tuple_ty: call.inputs@,
        signature: static_method(
            valued_params(call.inputs@, call.inputs@.len()),
            lowered(*call.output),
        ),
        interface_name: interface_name(call.interface),
    }
}

fn make_call_abi<'a>(call: &'a CallShape) -> (r: CallableTraitObjectAbi<'a>)
    ensures
        r.deep_view() == call_abi(*call),
{
    CallableTraitObjectAbi {
        tuple_ty: &call.inputs,
        signature: static_signature(&make_valued_params(&call.inputs), &call.output.jvm_type()),
        interface_name: cat2(RUNTIME_PACKAGE, call.interface.local_name.as_str()),
    }
}

/// The call that a type answers: that of a trait object of a function trait, or of what a
/// reference or a raw pointer to one points to.
pub open spec fn call_of(ty: RustType) -> Option<CallShape> {
    let object = match ty.kind {
        TypeKind::Ref { pointee, .. } => *pointee,
        TypeKind::RawPtr { pointee, .. } => *pointee,
        _ => ty,
    };
    match object.kind {
        TypeKind::Dynamic(dynamic) => dynamic.callable,
        _ => None,
    }
}

fn get_call(ty: &RustType) -> (r: Option<&CallShape>)
    ensures
        (match r {
            Some(call) => Some(*call),
            None => None,
        }) == call_of(*ty),
        valid(*ty) ==> match r {
            Some(call) => types_valid(call.inputs@) && valid(*call.output),
            None => true,
        },
{
    proof {
        reveal_with_fuel(valid, 2);
    }
    let object: &RustType = match &ty.kind {
        TypeKind::Ref { pointee, .. } => pointee,
        TypeKind::RawPtr { pointee, .. } => pointee,
        _ => ty,
    };
    assert(valid(*ty) ==> valid(*object));
    match &object.kind {
        TypeKind::Dynamic(dynamic) => {
            assert(valid(*ty) ==> dynamic_valid(*dynamic));
            match &dynamic.callable {
                Some(call) => Some(call),
                None => None,
            }
        },
        _ => None,
    }
}

/// How a callable trait object is called, with the definitions that this needs.
pub open spec fn callable_abi(ty: RustType, defs: DefinitionsModel) -> (
    DefinitionsModel,
    Option<CallableTraitObjectAbiModel>,
) {
    match call_of(ty) {
        Some(call) => {
            let defs = defined_types(call.inputs@, 0, defs);
            let defs = type_defined(*call.output, defs);
            let (defs, _) = call_interface_defined(call.interface, defs);
            (defs, Some(call_abi(call)))
        },
        None => (defs, None),
    }
}

/// Tells how a callable trait object is called and defines what that needs.
pub fn callable_trait_object_abi<'a>(ty: &'a RustType, defs: &mut Definitions) -> (r: Option<
    CallableTraitObjectAbi<'a>,
>)
    requires
        valid(*ty),
    ensures
        (final(defs).deep_view(), r.deep_view()) == callable_abi(*ty, old(defs).deep_view()),
{
    match get_call(ty) {
        Some(call) => {
            define_types(&call.inputs, defs);
            define_type(&call.output, defs);
            ensure_fn_ptr_interface(&call.interface, defs);
            Some(make_call_abi(call))
        },
        None => None,
    }
}

/// A type with the classes of its definition, also where another module is expected to define them.
#[verifier::opaque]
pub open spec fn forced(ty: RustType, defs: DefinitionsModel) -> (DefinitionsModel, TypeModel) {
    match ty.kind {
        TypeKind::Adt(adt) => {
            if is_thin(adt) {
                let (defs, lowered_ty) = type_lowered(ty, defs);
                (defs, lowered_ty)
            } else {
                let defs = defined_arguments(adt.arguments@, 0, defs);
                let defs = described_defined(ty, adt, defs);
                (defs, lowered(ty))
            }
        },
        _ => {
            let (defs, lowered_ty) = type_lowered(ty, defs);
            (defs, lowered_ty)
        },
    }
}

/// Lowers a type and defines its classes, also where another module is expected to define them.
pub fn force_define_named_adt(ty: &RustType, defs: &mut Definitions) -> (r: Type)
    requires
        valid(*ty),
    ensures
        (final(defs).deep_view(), r.deep_view()) == forced(*ty, old(defs).deep_view()),
{
    proof {
        reveal(forced);
    }
    match &ty.kind {
        TypeKind::Adt(adt) => {
            if is_thin_pointer(adt) {
                let lowered_ty = ty_to_oomir_type(ty, defs);
                lowered_ty
            } else {
                proof {
                    assert(adt_valid(*adt));
                }
                define_arguments(&adt.arguments, defs);
                define_described(ty, adt, defs);
                RustType::jvm_type(ty)
            }
        },
        _ => {
            let lowered_ty = ty_to_oomir_type(ty, defs);
            lowered_ty
        },
    }
}

/// Whether a named type is represented like a raw pointer.
pub open spec fn is_thin(adt: Adt) -> bool {
    thin_pointee(adt.role) is Some
}

fn is_thin_pointer(adt: &Adt) -> (r: bool)
    ensures
        r == is_thin(*adt),
{
    match &adt.role {
        Role::NonNull { pointee: Some(pointee) } => pointee.is_sized,
        _ => false,
    }
}

/// Definitions with the classes of a named type, if it is described.
#[verifier::opaque]
pub open spec fn described_defined(
    ty: RustType,
    adt: Adt,
    defs: DefinitionsModel,
) -> DefinitionsModel {
    if adt.is_described {
        let defs = adt_defined(ty, adt, defs);
        defs
    } else {
        defs
    }
}

/// Defines the classes of a named type, if it is described.
pub fn define_described(ty: &RustType, adt: &Adt, defs: &mut Definitions)
    requires
        adt_valid(*adt),
        ty.kind == TypeKind::Adt(*adt),
        !is_thin(*adt),
        adt.is_described && !(adt.shape is Enum) ==> adt.variants@.len() > 0,
    ensures
        final(defs).deep_view() == described_defined(*ty, *adt, old(defs).deep_view()),
{
    proof {
        reveal(described_defined);
    }
    if adt.is_described {
        ensure_adt_data_type(ty, adt, defs);
    } else {

    }
}

/// Definitions with the classes of a named type that another module is expected to define.
#[verifier::opaque]
pub open spec fn external_forced(
    ty: RustType,
    adt: Adt,
    defs: DefinitionsModel,
) -> DefinitionsModel {
    if adt.defined_here {
        defs
    } else {
        let (defs, _ty) = forced(ty, defs);
        defs
    }
}

/// Defines the classes of a named type that another module is expected to define.
pub fn force_define_external(ty: &RustType, adt: &Adt, defs: &mut Definitions)
    requires
        valid(*ty), ty.kind == TypeKind::Adt(*adt),
    ensures
        final(defs).deep_view() == external_forced(*ty, *adt, old(defs).deep_view()),
{
    proof {
        reveal(external_forced);
    }
    if adt.defined_here {

    } else {
        let _ty = force_define_named_adt(ty, defs);
    }
}

/// Definitions with the classes of the external types that fields from one on mention.
pub open spec fn external_in_fields(
    fields: Seq<Field>,
    from: nat,
    defs: DefinitionsModel,
) -> DefinitionsModel
    decreases fields, 0nat, fields.len() - from,
{
    if from >= fields.len() {
        defs
    } else {
        let item = fields[from as int];
        let defs = external_in_type(item.ty, defs);
        external_in_fields(fields, from + 1, defs)
    }
}

/// Defines the classes of the external types that fields mention.
pub fn force_define_external_adts_in_fields(fields: &Vec<Field>, defs: &mut Definitions)
    requires
        all_valid(fields@),
    ensures
        final(defs).deep_view() == external_in_fields(fields@, 0, old(defs).deep_view()),
    decreases fields@, 0nat,
{
    let ghost start = external_in_fields(fields@, 0, defs.deep_view());
    for i in 0..fields.len()
        invariant
            all_valid(fields@),
            external_in_fields(fields@, i as nat, defs.deep_view()) == start,
    {
        let item = &fields[i];
        proof {
            assert(valid(fields@[i as int].ty));
        }
        force_define_external_adts_in_ty(&item.ty, defs);
    }
}

/// Definitions with the classes of the external types that types from one on mention.
pub open spec fn external_in_types(
    types: Seq<RustType>,
    from: nat,
    defs: DefinitionsModel,
) -> DefinitionsModel
    decreases types, 0nat, types.len() - from,
{
    if from >= types.len() {
        defs
    } else {
        let item = types[from as int];
        let defs = external_in_type(item, defs);
        external_in_types(types, from + 1, defs)
    }
}

/// Defines the classes of the external types that types mention.
pub fn force_define_external_mir_adts(types: &Vec<RustType>, defs: &mut Definitions)
    requires
        types_valid(types@),
    ensures
        final(defs).deep_view() == external_in_types(types@, 0, old(defs).deep_view()),
    decreases types@, 0nat,
{
    let ghost start = external_in_types(types@, 0, defs.deep_view());
    for i in 0..types.len()
        invariant
            types_valid(types@),
            external_in_types(types@, i as nat, defs.deep_view()) == start,
    {
        let item = &types[i];
        proof {
            assert(valid(types@[i as int]));
        }
        force_define_external_adts_in_ty(item, defs);
    }
}

/// Definitions with the classes of the external types that generic arguments from one on mention.
pub open spec fn external_in_arguments(
    arguments: Seq<GenericArg>,
    from: nat,
    defs: DefinitionsModel,
) -> DefinitionsModel
    decreases arguments, 0nat, arguments.len() - from,
{
    if from >= arguments.len() {
        defs
    } else {
        let item = arguments[from as int];
        let defs = external_in_argument(item, defs);
        external_in_arguments(arguments, from + 1, defs)
    }
}

/// Defines the classes of the external types that generic arguments mention.
pub fn force_define_external_adts_in_arguments(
    arguments: &Vec<GenericArg>,
    defs: &mut Definitions,
)
    requires
        arguments_valid(arguments@),
    ensures
        final(defs).deep_view() == external_in_arguments(arguments@, 0, old(defs).deep_view()),
    decreases arguments@, 0nat,
{
    let ghost start = external_in_arguments(arguments@, 0, defs.deep_view());
    for i in 0..arguments.len()
        invariant
            arguments_valid(arguments@),
            external_in_arguments(arguments@, i as nat, defs.deep_view()) == start,
    {
        let item = &arguments[i];
        force_define_external_adts_in_argument(item, defs);
    }
}

/// Definitions with the classes of the external types that a generic argument mentions.
pub open spec fn external_in_argument(
    argument: GenericArg,
    defs: DefinitionsModel,
) -> DefinitionsModel
    decreases argument, 9nat, 0nat,
{
    match argument {
        GenericArg::Type(ty) => {
            let defs = external_in_type(ty, defs);
            defs
        },
        _ => {
            defs
        },
    }
}

/// Defines the classes of the external types that a generic argument mentions.
pub fn force_define_external_adts_in_argument(argument: &GenericArg, defs: &mut Definitions)
    requires
        argument_valid(*argument),
    ensures
        final(defs).deep_view() == external_in_argument(*argument, old(defs).deep_view()),
    decreases argument, 9nat,
{
    match argument {
        GenericArg::Type(ty) => {
            force_define_external_adts_in_ty(ty, defs);
        },
        _ => {

        },
    }
}

/// Definitions with the classes of the external types that bounds from one on mention.
pub open spec fn external_in_bounds(
    bounds: Seq<Bound>,
    from: nat,
    defs: DefinitionsModel,
) -> DefinitionsModel
    decreases bounds, 0nat, bounds.len() - from,
{
    if from >= bounds.len() {
        defs
    } else {
        let item = bounds[from as int];
        let defs = external_in_bound(item, defs);
        external_in_bounds(bounds, from + 1, defs)
    }
}

/// Defines the classes of the external types that bounds mention.
pub fn force_define_external_adts_in_bounds(bounds: &Vec<Bound>, defs: &mut Definitions)
    requires
        bounds_valid(bounds@),
    ensures
        final(defs).deep_view() == external_in_bounds(bounds@, 0, old(defs).deep_view()),
    decreases bounds@, 0nat,
{
    let ghost start = external_in_bounds(bounds@, 0, defs.deep_view());
    for i in 0..bounds.len()
        invariant
            bounds_valid(bounds@),
            external_in_bounds(bounds@, i as nat, defs.deep_view()) == start,
    {
        let item = &bounds[i];
        force_define_external_adts_in_bound(item, defs);
    }
}

/// Definitions with the classes of the external types that a bound mentions.
pub open spec fn external_in_bound(bound: Bound, defs: DefinitionsModel) -> DefinitionsModel
    decreases bound, 9nat, 0nat,
{
    match bound {
        Bound::Trait { arguments, .. } => {
            let defs = external_in_arguments(arguments@, 0, defs);
            defs
        },
        Bound::Projection { arguments, term, .. } => {
            let defs = external_in_arguments(arguments@, 0, defs);
            let defs = external_in_argument((*term), defs);
            defs
        },
        Bound::AutoTrait { .. } => {
            defs
        },
    }
}

/// Defines the classes of the external types that a bound mentions.
pub fn force_define_external_adts_in_bound(bound: &Bound, defs: &mut Definitions)
    requires
        bound_valid(*bound),
    ensures
        final(defs).deep_view() == external_in_bound(*bound, old(defs).deep_view()),
    decreases bound, 9nat,
{
    match bound {
        Bound::Trait { arguments, .. } => {
            force_define_external_adts_in_arguments(arguments, defs);
        },
        Bound::Projection { arguments, term, .. } => {
            force_define_external_adts_in_arguments(arguments, defs);
            force_define_external_adts_in_argument(term, defs);
        },
        Bound::AutoTrait { .. } => {

        },
    }
}

/// Definitions with the classes of the external types that a type mentions: those without generic
/// arguments that another crate would define, and might not, if only this one uses them.
pub open spec fn external_in_type(ty: RustType, defs: DefinitionsModel) -> DefinitionsModel
    decreases ty, 5nat, 0nat,
{
    match ty.kind {
        TypeKind::Pat(inner) => {
            let defs = external_in_type((*inner), defs);
            defs
        },
        TypeKind::Ref { pointee, .. } => {
            let defs = external_in_type((*pointee), defs);
            defs
        },
        TypeKind::RawPtr { pointee, .. } => {
            let defs = external_in_type((*pointee), defs);
            defs
        },
        TypeKind::Array { element, .. } => {
            let defs = external_in_type((*element), defs);
            defs
        },
        TypeKind::Slice(element) => {
            let defs = external_in_type((*element), defs);
            defs
        },
        TypeKind::Tuple { elements, .. } => {
            let defs = external_in_fields(elements@, 0, defs);
            defs
        },
        TypeKind::Adt(adt) => {
            let defs = external_forced(ty, adt, defs);
            let defs = external_in_arguments(adt.arguments@, 0, defs);
            defs
        },
        TypeKind::Closure { captures, arguments, .. } => {
            let defs = external_in_fields(captures@, 0, defs);
            let defs = external_in_arguments(arguments@, 0, defs);
            defs
        },
        TypeKind::Coroutine(coroutine) => {
            let defs = external_in_fields(coroutine.captures@, 0, defs);
            let defs = external_in_arguments(coroutine.arguments@, 0, defs);
            defs
        },
        TypeKind::Dynamic(dynamic) => {
            let defs = external_in_bounds(dynamic.bounds@, 0, defs);
            defs
        },
        TypeKind::FnPtr { inputs, output, .. } => {
            let defs = external_in_types(inputs@, 0, defs);
            let defs = external_in_type((*output), defs);
            defs
        },
        TypeKind::FnDef { arguments, .. } => {
            let defs = external_in_arguments(arguments@, 0, defs);
            defs
        },
        _ => {
            defs
        },
    }
}

/// Defines the classes of the external types that a type mentions.
pub fn force_define_external_adts_in_ty(ty: &RustType, defs: &mut Definitions)
    requires
        valid(*ty),
    ensures
        final(defs).deep_view() == external_in_type(*ty, old(defs).deep_view()),
    decreases ty, 5nat,
{
    match &ty.kind {
        TypeKind::Pat(inner) => {
            force_define_external_adts_in_ty(inner, defs);
        },
        TypeKind::Ref { pointee, .. } => {
            force_define_external_adts_in_ty(pointee, defs);
        },
        TypeKind::RawPtr { pointee, .. } => {
            force_define_external_adts_in_ty(pointee, defs);
        },
        TypeKind::Array { element, .. } => {
            force_define_external_adts_in_ty(element, defs);
        },
        TypeKind::Slice(element) => {
            force_define_external_adts_in_ty(element, defs);
        },
        TypeKind::Tuple { elements, .. } => {
            force_define_external_adts_in_fields(elements, defs);
        },
        TypeKind::Adt(adt) => {
            force_define_external(ty, adt, defs);
            proof {
                assert(adt_valid(*adt));
            }
            force_define_external_adts_in_arguments(&adt.arguments, defs);
        },
        TypeKind::Closure { captures, arguments, .. } => {
            force_define_external_adts_in_fields(captures, defs);
            force_define_external_adts_in_arguments(arguments, defs);
        },
        TypeKind::Coroutine(coroutine) => {
            proof {
                assert(coroutine_valid(*coroutine));
            }
            force_define_external_adts_in_fields(&coroutine.captures, defs);
            force_define_external_adts_in_arguments(&coroutine.arguments, defs);
        },
        TypeKind::Dynamic(dynamic) => {
            proof {
                assert(dynamic_valid(*dynamic));
            }
            force_define_external_adts_in_bounds(&dynamic.bounds, defs);
        },
        TypeKind::FnPtr { inputs, output, .. } => {
            force_define_external_mir_adts(inputs, defs);
            force_define_external_adts_in_ty(output, defs);
        },
        TypeKind::FnDef { arguments, .. } => {
            force_define_external_adts_in_arguments(arguments, defs);
        },
        _ => {

        },
    }
}

} // verus!
