//! How the names of types are made of those of their parts.
use crate::class_names::{type_identities, type_tokens};
use crate::names::name_token;
use crate::oomir::{Text, Type, TypeModel};
use crate::rust_type::{Bound, DynamicType, Field, GenericArg, RustType, TypeKind};
use crate::text::decimal_text;
use crate::type_names::{
    NameStyle, argument_name, argument_names, auto_trait_names, class_token, dynamic_name,
    field_names, flattened, last_segment, name_of_type, path_token, type_token, with_arguments,
};
use vstd::prelude::*;
use vstd::string::*;

verus! {

/// The name of a pointer is that of what it points to behind a word for the kind of pointer; no two
/// kinds have the same word.
pub proof fn pointers_are_named_by_their_kind(ty: RustType)
    ensures
        ty.kind matches TypeKind::Ref { pointee, mutable: true } ==> name_of_type(
            ty,
            NameStyle::Plain,
        ) == "MutRef"@ + name_of_type(*pointee, NameStyle::Plain),
        ty.kind matches TypeKind::Ref { pointee, mutable: false } ==> name_of_type(
            ty,
            NameStyle::Plain,
        ) == "Ref"@ + name_of_type(*pointee, NameStyle::Plain),
        ty.kind matches TypeKind::RawPtr { pointee, mutable: true } ==> name_of_type(
            ty,
            NameStyle::Plain,
        ) == "MutPtr"@ + name_of_type(*pointee, NameStyle::Plain),
        ty.kind matches TypeKind::RawPtr { pointee, mutable: false } ==> name_of_type(
            ty,
            NameStyle::Plain,
        ) == "ConstPtr"@ + name_of_type(*pointee, NameStyle::Plain),
        ty.kind matches TypeKind::Ref { pointee, mutable: true } ==> name_of_type(
            ty,
            NameStyle::Codec,
        ) == "MutRef"@ + "_to_"@ + name_of_type(*pointee, NameStyle::Codec),
        ty.kind matches TypeKind::Ref { pointee, mutable: false } ==> name_of_type(
            ty,
            NameStyle::Codec,
        ) == "Ref"@ + "_to_"@ + name_of_type(*pointee, NameStyle::Codec),
        ty.kind matches TypeKind::RawPtr { pointee, mutable: true } ==> name_of_type(
            ty,
            NameStyle::Codec,
        ) == "MutPtr"@ + "_to_"@ + name_of_type(*pointee, NameStyle::Codec),
        ty.kind matches TypeKind::RawPtr { pointee, mutable: false } ==> name_of_type(
            ty,
            NameStyle::Codec,
        ) == "ConstPtr"@ + "_to_"@ + name_of_type(*pointee, NameStyle::Codec),
{
    reveal_strlit("");
    match ty.kind {
        TypeKind::Ref { pointee, mutable } => {
            let inner = name_of_type(*pointee, NameStyle::Plain);
            assert("MutRef"@ + ""@ + inner =~= "MutRef"@ + inner);
            assert("Ref"@ + ""@ + inner =~= "Ref"@ + inner);
        },
        TypeKind::RawPtr { pointee, mutable } => {
            let inner = name_of_type(*pointee, NameStyle::Plain);
            assert("MutPtr"@ + ""@ + inner =~= "MutPtr"@ + inner);
            assert("ConstPtr"@ + ""@ + inner =~= "ConstPtr"@ + inner);
        },
        _ => {},
    }
}

/// The word between the names of two parts.
pub open spec fn between(style: NameStyle) -> Text {
    match style {
        NameStyle::Plain => "_"@,
        NameStyle::Codec => "_and_"@,
    }
}

proof fn first_fields_are_named_alike(fields: Seq<Field>, field: Field, style: NameStyle, n: nat)
    requires
        n <= fields.len(),
    ensures
        field_names(fields.push(field), style, n) == field_names(fields, style, n),
    decreases n,
{
    if n > 0 {
        first_fields_are_named_alike(fields, field, style, (n - 1) as nat);
        assert(fields.push(field)[n - 1] == fields[n - 1]);
    }
}

/// One more field adds its name behind those of the others.
pub proof fn each_field_adds_its_name(fields: Seq<Field>, field: Field, style: NameStyle)
    ensures
        field_names(fields.push(field), style, fields.len() + 1) == (if fields.len() == 0 {
            name_of_type(field.ty, style)
        } else {
            field_names(fields, style, fields.len()) + between(style) + name_of_type(field.ty, style)
        }),
{
    first_fields_are_named_alike(fields, field, style, fields.len());
    assert(fields.push(field)[fields.len() as int] == field);
}

/// The name of a tuple is made of those of its elements; a tuple without elements is the unit.
pub proof fn tuples_are_named_by_their_elements(ty: RustType)
    ensures
        ty.kind matches TypeKind::Tuple { elements, .. } ==> {
            &&& name_of_type(ty, NameStyle::Plain) == (if elements@.len() == 0 {
                "Unit"@
            } else {
                "Tuple_"@ + field_names(elements@, NameStyle::Plain, elements@.len())
            })
            &&& name_of_type(ty, NameStyle::Codec) == (if elements@.len() == 0 {
                "Unit"@
            } else {
                "Tuple_of_"@ + field_names(elements@, NameStyle::Codec, elements@.len())
            })
        },
{
}

proof fn first_arguments_are_named_alike(
    arguments: Seq<GenericArg>,
    argument: GenericArg,
    style: NameStyle,
    n: nat,
)
    requires
        n <= arguments.len(),
    ensures
        argument_names(arguments.push(argument), style, n) == argument_names(arguments, style, n),
    decreases n,
{
    if n > 0 {
        first_arguments_are_named_alike(arguments, argument, style, (n - 1) as nat);
        assert(arguments.push(argument)[n - 1] == arguments[n - 1]);
    }
}

/// The name that an argument adds, if it adds one.
pub open spec fn added_name(argument: GenericArg, style: NameStyle) -> Option<Text> {
    match (argument, style) {
        (GenericArg::Type(ty), _) => Some(name_of_type(ty, style)),
        (GenericArg::Const(value), NameStyle::Plain) => Some(value@),
        (GenericArg::Const(value), NameStyle::Codec) => Some("Const_"@ + value@),
        (GenericArg::Region, _) => None,
    }
}

/// One more argument adds its name behind those of the others; a region adds none.
pub proof fn each_argument_adds_its_name(
    arguments: Seq<GenericArg>,
    argument: GenericArg,
    style: NameStyle,
)
    ensures
        ({
            let before = argument_names(arguments, style, arguments.len());
            let after = argument_names(arguments.push(argument), style, arguments.len() + 1);
            match added_name(argument, style) {
                None => after == before,
                Some(name) => after.1 && after.0 == (if before.1 {
                    before.0 + between(style) + name
                } else {
                    name
                }),
            }
        }),
{
    reveal_with_fuel(argument_names, 2);
    assert(argument_name(argument, style) == added_name(argument, style));
    first_arguments_are_named_alike(arguments, argument, style, arguments.len());
    assert(arguments.push(argument)[arguments.len() as int] == argument);
}

/// The name of a class with arguments is the name of the class with those of the arguments behind
/// it; regions do not count.
pub proof fn arguments_stand_behind_the_class(base: Text, arguments: Seq<GenericArg>)
    ensures
        (forall|i: int| 0 <= i < arguments.len() ==> #[trigger] arguments[i] is Region) ==> (
        with_arguments(base, arguments, NameStyle::Plain) == base && with_arguments(
            base,
            arguments,
            NameStyle::Codec,
        ) == base),
        (exists|i: int| 0 <= i < arguments.len() && !(#[trigger] arguments[i] is Region)) ==> {
            &&& with_arguments(base, arguments, NameStyle::Plain) == base + "_"@ + argument_names(
                arguments,
                NameStyle::Plain,
                arguments.len(),
            ).0
            &&& with_arguments(base, arguments, NameStyle::Codec) == base + "_of_"@
                + argument_names(arguments, NameStyle::Codec, arguments.len()).0
        },
{
    some_argument_is_named(arguments, NameStyle::Plain, arguments.len());
    some_argument_is_named(arguments, NameStyle::Codec, arguments.len());
}

proof fn some_argument_is_named(arguments: Seq<GenericArg>, style: NameStyle, n: nat)
    requires
        n <= arguments.len(),
    ensures
        argument_names(arguments, style, n).1 <==> exists|i: int|
            0 <= i < n && !(#[trigger] arguments[i] is Region),
    decreases n,
{
    reveal_with_fuel(argument_names, 2);
    if n > 0 {
        some_argument_is_named(arguments, style, (n - 1) as nat);
        let last = arguments[n - 1];
        assert(argument_name(last, style) == added_name(last, style));
        if !(last is Region) {
            assert(!(arguments[n - 1] is Region));
        }
        if argument_names(arguments, style, n).1 && last is Region {
            let i = choose|i: int| 0 <= i < n - 1 && !(#[trigger] arguments[i] is Region);
            assert(!(arguments[i] is Region));
        }
        if exists|i: int| 0 <= i < n && !(#[trigger] arguments[i] is Region) {
            let i = choose|i: int| 0 <= i < n && !(#[trigger] arguments[i] is Region);
            if i < n - 1 {
                assert(!(arguments[i] is Region));
            }
        }
    }
}

proof fn first_bounds_are_named_alike(bounds: Seq<Bound>, bound: Bound, style: NameStyle, n: nat)
    requires
        n <= bounds.len(),
    ensures
        auto_trait_names(bounds.push(bound), style, n) == auto_trait_names(bounds, style, n),
    decreases n,
{
    if n > 0 {
        first_bounds_are_named_alike(bounds, bound, style, (n - 1) as nat);
        assert(bounds.push(bound)[n - 1] == bounds[n - 1]);
    }
}

/// One more bound adds the name of its trait if that is an auto trait, and nothing else.
pub proof fn each_auto_trait_adds_its_name(bounds: Seq<Bound>, bound: Bound, style: NameStyle)
    ensures
        ({
            let before = auto_trait_names(bounds, style, bounds.len());
            let after = auto_trait_names(bounds.push(bound), style, bounds.len() + 1);
            match bound {
                Bound::AutoTrait { interface_name, .. } => after.1 && after.0 == (if before.1 {
                    before.0 + between(style) + class_token(interface_name@)
                } else {
                    class_token(interface_name@)
                }),
                _ => after == before,
            }
        }),
{
    first_bounds_are_named_alike(bounds, bound, style, bounds.len());
    assert(bounds.push(bound)[bounds.len() as int] == bound);
}

/// The name of a trait object starts with that of its interface; the auto traits stand at the end.
pub proof fn trait_objects_are_named_by_their_traits(
    base: Text,
    dynamic: DynamicType,
    style: NameStyle,
)
    ensures
        ({
            let name = dynamic_name(base, dynamic, style);
            let autos = auto_trait_names(dynamic.bounds@, style, dynamic.bounds@.len());
            let own = match (style, dynamic.region_digest) {
                (NameStyle::Plain, Some(digest)) => base + "_"@ + digest@,
                _ => base,
            };
            name == (if autos.1 {
                own + between(style) + autos.0
            } else {
                own
            })
        }),
{
}

/// The name of an array or a slice is made of that of its elements.
pub proof fn sequences_are_named_by_their_elements(ty: RustType)
    ensures
        ty.kind matches TypeKind::Slice(element) ==> {
            &&& name_of_type(ty, NameStyle::Plain) == name_of_type(*element, NameStyle::Plain)
                + "Slice"@
            &&& name_of_type(ty, NameStyle::Codec) == "Slice_of_"@ + name_of_type(
                *element,
                NameStyle::Codec,
            )
        },
        ty.kind matches TypeKind::Array { element, length: Some(n) } ==> {
            &&& name_of_type(ty, NameStyle::Plain) == name_of_type(*element, NameStyle::Plain)
                + "Array"@ + decimal_text(n as nat)
            &&& name_of_type(ty, NameStyle::Codec) == "Array"@ + decimal_text(n as nat) + "_of_"@
                + name_of_type(*element, NameStyle::Codec)
        },
{
}

proof fn first_types_are_named_alike(
    types: Seq<TypeModel>,
    ty: TypeModel,
    rust_types: Seq<RustType>,
    rust_type: RustType,
    n: nat,
)
    ensures
        n <= types.len() ==> type_tokens(types.push(ty), n) == type_tokens(types, n),
        n <= rust_types.len() ==> type_identities(rust_types.push(rust_type), n)
            == type_identities(rust_types, n),
    decreases n,
{
    if n > 0 {
        first_types_are_named_alike(types, ty, rust_types, rust_type, (n - 1) as nat);
        if n <= types.len() {
            assert(types.push(ty)[n - 1] == types[n - 1]);
        }
        if n <= rust_types.len() {
            assert(rust_types.push(rust_type)[n - 1] == rust_types[n - 1]);
        }
    }
}

/// The name of the class of a tuple, and what the tuple is known by, take up each element, in their
/// order.
pub proof fn each_element_adds_its_token(
    types: Seq<TypeModel>,
    ty: TypeModel,
    rust_types: Seq<RustType>,
    rust_type: RustType,
)
    ensures
        type_tokens(types.push(ty), types.len() + 1) == (if types.len() == 0 {
            name_token(path_token(ty))
        } else {
            type_tokens(types, types.len()) + "_"@ + name_token(path_token(ty))
        }),
        type_identities(rust_types.push(rust_type), rust_types.len() + 1) == (if rust_types.len()
            == 0 {
            name_of_type(rust_type, NameStyle::Plain)
        } else {
            type_identities(rust_types, rust_types.len()) + "_"@ + name_of_type(
                rust_type,
                NameStyle::Plain,
            )
        }),
{
    first_types_are_named_alike(types, ty, rust_types, rust_type, types.len());
    first_types_are_named_alike(types, ty, rust_types, rust_type, rust_types.len());
    assert(types.push(ty)[types.len() as int] == ty);
    assert(rust_types.push(rust_type)[rust_types.len() as int] == rust_type);
}

/// The tokens of types that are made of others hold the tokens of these.
pub proof fn tokens_hold_those_of_their_parts(ty: TypeModel)
    ensures
        ty matches Type::Array(inner) ==> path_token(ty) == path_token(*inner) + "Array"@
            && type_token(ty) == type_token(*inner) + "Array"@,
        ty matches Type::Slice(inner) ==> path_token(ty) == path_token(*inner) + "Slice"@
            && type_token(ty) == type_token(*inner) + "Slice"@,
        ty matches Type::Pointer(inner) ==> path_token(ty) == "Ptr"@ + path_token(*inner)
            && type_token(ty) == "Ptr"@ + type_token(*inner),
        ty matches Type::Reference(inner) ==> path_token(ty) == "Ref"@ + path_token(*inner)
            && type_token(ty) == "Ref"@ + type_token(*inner),
        ty matches Type::Class(name) ==> path_token(ty) == name_token(name) && type_token(ty)
            == last_segment(name),
        ty matches Type::Interface(name) ==> path_token(ty) == "I"@ + name_token(name)
            && type_token(ty) == "I"@ + last_segment(name),
{
    reveal_with_fuel(path_token, 2);
    reveal_with_fuel(type_token, 2);
}

/// The token of a class leaves out the package of the libraries, and says the same of a path
/// whether its parts are apart or joined.
pub proof fn libraries_are_left_out(rest: Text)
    ensures
        class_token("org/rustlang/"@ + rest) == name_token(flattened(rest)),
{
    let whole = "org/rustlang/"@ + rest;
    let n = "org/rustlang/"@.len() as int;
    assert(whole.take(n) =~= "org/rustlang/"@);
    assert(whole.skip(n) =~= rest);
}

} // verus!
