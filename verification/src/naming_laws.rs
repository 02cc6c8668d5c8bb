//! What the names of types, classes and numbers tell.
use crate::class_names::{
    InterfaceIdentityModel, adt_class, argument_identities, argument_tokens, arguments_added,
    bound_added, bounds_identity, codec_root, field_name_at, has_named_argument, hex_digit,
    hex_text, is_special, needs_own_interface, path_in_crate, readable_class, signed_decimal,
};
use crate::classes::fields_of;
use crate::code::DefinitionsModel;
use crate::definitions::is_class;
use crate::descriptor::method_descriptor;
use crate::execution::{decimal_is_digits, decimals_differ};
use crate::names::{is_name_char, name_token, name_token_is_a_name};
use crate::oomir::{FunctionModel, Text, Type};
use crate::outline::identity_text;
use crate::rust_type::{Bound, GenericArg, RustType, TypeKind, lowered};
use crate::text::{decimal_text, digit};
use crate::type_names::{
    NameStyle, argument_name, last_segment, last_separator, name_of_type, package_of, type_token,
};
use vstd::prelude::*;
use vstd::string::*;

verus! {

/// The value of a digit.
pub open spec fn digit_value(c: char) -> nat {
    if '0' <= c <= '9' {
        (c as nat - '0' as nat) as nat
    } else {
        (c as nat - 'a' as nat + 10) as nat
    }
}

/// The number that digits stand for, most significant digit first.
pub open spec fn number_of(text: Text, base: nat) -> nat
    decreases text.len(),
{
    if text.len() == 0 {
        0
    } else {
        number_of(text.drop_last(), base) * base + digit_value(text.last())
    }
}

/// The decimal text of a number stands for that number.
pub proof fn decimals_stand_for_their_number(n: nat)
    ensures
        number_of(decimal_text(n), 10) == n,
    decreases n,
{
    reveal_with_fuel(number_of, 2);
    if n >= 10 {
        decimals_stand_for_their_number(n / 10);
        assert(decimal_text(n).drop_last() =~= decimal_text(n / 10));
    } else {
        assert(decimal_text(n).drop_last() =~= Seq::<char>::empty());
    }
    assert(decimal_text(n).last() == digit(n % 10));
}

/// A signed decimal text is that of the absolute value, behind a minus sign if the number is
/// negative.
pub proof fn signed_decimals_stand_for_their_number(n: int)
    ensures
        n >= 0 ==> number_of(signed_decimal(n), 10) == n,
        n < 0 ==> signed_decimal(n)[0] == '-' && number_of(signed_decimal(n).skip(1), 10) == -n,
{
    reveal_strlit("-");
    if n < 0 {
        decimals_stand_for_their_number((-n) as nat);
        assert(signed_decimal(n).skip(1) =~= decimal_text((-n) as nat));
    } else {
        decimals_stand_for_their_number(n as nat);
    }
}

/// Sixteen to the power of a number of digits.
pub open spec fn sixteen_to(digits: nat) -> nat
    decreases digits,
{
    if digits == 0 {
        1
    } else {
        16 * sixteen_to((digits - 1) as nat)
    }
}

/// A hexadecimal text has as many digits as are asked for, and stands for the number as far as
/// these reach.
pub proof fn hexadecimals_stand_for_their_number(n: nat, digits: nat)
    ensures
        hex_text(n, digits).len() == digits,
        n < sixteen_to(digits) ==> number_of(hex_text(n, digits), 16) == n,
    decreases digits,
{
    reveal_with_fuel(number_of, 2);
    if digits > 0 {
        let less = (digits - 1) as nat;
        hexadecimals_stand_for_their_number(n / 16, less);
        assert(hex_text(n, digits).drop_last() =~= hex_text(n / 16, less));
        assert(hex_text(n, digits).last() == hex_digit(n % 16));
        assert(digit_value(hex_digit(n % 16)) == n % 16);
        if n < sixteen_to(digits) {
            assert(n / 16 < sixteen_to(less)) by (nonlinear_arith)
                requires
                    n < 16 * sixteen_to(less),
            ;
        }
    }
}

/// Whether a type is one of the integers up to 64 bits, the floating-point numbers up to 64 bits,
/// the characters and the truth values.
pub open spec fn is_small_scalar(ty: RustType) -> bool {
    match ty.kind {
        TypeKind::Bool | TypeKind::Char => true,
        TypeKind::Int(kind) => !(kind is I128),
        TypeKind::Uint(kind) => !(kind is U128),
        TypeKind::Float(kind) => !(kind is F128),
        _ => false,
    }
}

proof fn scalar_names_differ()
    ensures
        "bool"@.len() == 4 && "bool"@[0] == 'b',
        "char"@.len() == 4 && "char"@[0] == 'c',
        "i8"@.len() == 2 && "i8"@[0] == 'i',
        "u8"@.len() == 2 && "u8"@[0] == 'u',
        "i16"@.len() == 3 && "i16"@[0] == 'i' && "i16"@[1] == '1',
        "u16"@.len() == 3 && "u16"@[0] == 'u' && "u16"@[1] == '1',
        "f16"@.len() == 3 && "f16"@[0] == 'f' && "f16"@[1] == '1',
        "i32"@.len() == 3 && "i32"@[0] == 'i' && "i32"@[1] == '3',
        "u32"@.len() == 3 && "u32"@[0] == 'u' && "u32"@[1] == '3',
        "f32"@.len() == 3 && "f32"@[0] == 'f' && "f32"@[1] == '3',
        "i64"@.len() == 3 && "i64"@[0] == 'i' && "i64"@[1] == '6',
        "u64"@.len() == 3 && "u64"@[0] == 'u' && "u64"@[1] == '6',
        "f64"@.len() == 3 && "f64"@[0] == 'f' && "f64"@[1] == '6',
        "isize"@.len() == 5 && "isize"@[0] == 'i',
        "usize"@.len() == 5 && "usize"@[0] == 'u',
{
    reveal_strlit("bool");
    reveal_strlit("char");
    reveal_strlit("i8");
    reveal_strlit("u8");
    reveal_strlit("i16");
    reveal_strlit("u16");
    reveal_strlit("f16");
    reveal_strlit("i32");
    reveal_strlit("u32");
    reveal_strlit("f32");
    reveal_strlit("i64");
    reveal_strlit("u64");
    reveal_strlit("f64");
    reveal_strlit("isize");
    reveal_strlit("usize");
}

/// No two different scalar types have the same name, although some share a JVM type.
pub proof fn scalars_are_named_apart(a: RustType, b: RustType, style: NameStyle)
    requires
        is_small_scalar(a),
        is_small_scalar(b),
        name_of_type(a, style) == name_of_type(b, style),
    ensures
        a.kind == b.kind,
{
    reveal_with_fuel(name_of_type, 2);
    reveal_with_fuel(lowered, 2);
    reveal_with_fuel(type_token, 2);
    scalar_names_differ();
}

/// Arrays of the same elements with different lengths have different names, and an array never has
/// the name of its elements.
pub proof fn arrays_are_named_apart(
    element: RustType,
    a: RustType,
    b: RustType,
    m: u64,
    n: u64,
    style: NameStyle,
)
    requires
        a.kind matches TypeKind::Array { element: e, length } && *e == element && length == Some(m),
        b.kind matches TypeKind::Array { element: e, length } && *e == element && length == Some(n),
        m != n,
    ensures
        name_of_type(a, style) != name_of_type(b, style),
        name_of_type(a, style) != name_of_type(element, style),
{
    reveal_with_fuel(name_of_type, 2);
    reveal_strlit("Array");
    reveal_strlit("_of_");
    let inner = name_of_type(element, style);
    let x = decimal_text(m as nat);
    let y = decimal_text(n as nat);
    decimal_is_digits(m as nat);
    assert(name_of_type(a, style).len() > inner.len());
    if name_of_type(a, style) == name_of_type(b, style) {
        match style {
            NameStyle::Plain => {
                assert(x =~= name_of_type(a, style).skip((inner.len() + 5) as int));
                assert(y =~= name_of_type(b, style).skip((inner.len() + 5) as int));
            },
            NameStyle::Codec => {
                assert(x.len() == y.len());
                assert(x =~= name_of_type(a, style).subrange(5, (5 + x.len()) as int));
                assert(y =~= name_of_type(b, style).subrange(5, (5 + y.len()) as int));
            },
        }
        decimals_differ(m as nat, n as nat);
    }
}

/// Whether a text has no separator.
pub open spec fn is_segment(text: Text) -> bool {
    forall|i: int| 0 <= i < text.len() ==> #[trigger] text[i] != '/'
}

proof fn separator_is_found(package: Text, name: Text)
    requires
        is_segment(name),
    ensures
        last_separator(package + "/"@ + name) == Some(package.len() as int),
    decreases name.len(),
{
    reveal_strlit("/");
    let path = package + "/"@ + name;
    if name.len() == 0 {
        assert(path.last() == '/');
    } else {
        assert(path.drop_last() =~= package + "/"@ + name.drop_last());
        assert(path.last() == name.last());
        assert(name.last() == name[name.len() - 1]);
        separator_is_found(package, name.drop_last());
    }
}

proof fn last_segment_is_a_segment(path: Text)
    ensures
        is_segment(last_segment(path)),
    decreases path.len(),
{
    if path.len() > 0 && path.last() != '/' {
        last_segment_is_a_segment(path.drop_last());
    }
}

proof fn tokens_are_a_segment(arguments: Seq<GenericArg>, n: nat)
    ensures
        is_segment(argument_tokens(arguments, n).0),
    decreases n,
{
    reveal_strlit("");
    reveal_strlit("_");
    if !(n == 0 || n > arguments.len()) {
        tokens_are_a_segment(arguments, (n - 1) as nat);
        if let Some(name) = crate::type_names::argument_name(arguments[n - 1], NameStyle::Plain) {
            name_token_is_a_name(name);
            let rest = argument_tokens(arguments, (n - 1) as nat);
            let after = argument_tokens(arguments, n).0;
            let token = name_token(name);
            assert forall|i: int| 0 <= i < after.len() implies #[trigger] after[i] != '/' by {
                if !rest.1 {
                    assert(is_name_char(token[i]));
                } else if i > rest.0.len() {
                    assert(is_name_char(token[i - rest.0.len() - 1]));
                }
            }
        }
    }
}

/// The class of a type with generic arguments is in the package of its definition, whether it reads
/// like its arguments or carries a hash in place of them.
pub proof fn classes_stay_in_their_package(
    definition_class: Text,
    arguments: Seq<GenericArg>,
    hash: Text,
)
    requires
        package_of(definition_class) matches Some(package) && package.len() > 0,
        is_segment(hash),
    ensures
        package_of(adt_class(definition_class, arguments, hash)) == package_of(definition_class),
        package_of(readable_class(definition_class, arguments)) == package_of(definition_class),
{
    reveal_strlit("_");
    let package = package_of(definition_class)->0;
    let last = last_segment(definition_class);
    last_segment_is_a_segment(definition_class);
    tokens_are_a_segment(arguments, arguments.len());
    let tokens = argument_tokens(arguments, arguments.len()).0;
    let named = last + "_"@ + tokens;
    let hashed = last + "_"@ + hash;
    assert(is_segment(named));
    assert(is_segment(hashed));
    separator_is_found(package, named);
    separator_is_found(package, last);
    separator_is_found(package, hashed);
    assert((package + "/"@ + named).take(package.len() as int) =~= package);
    assert((package + "/"@ + last).take(package.len() as int) =~= package);
    assert((package + "/"@ + hashed).take(package.len() as int) =~= package);
}

/// A path that starts with the name of its crate is shortened by exactly that; any other stays as
/// it is.
pub proof fn paths_lose_the_name_of_their_crate(crate_name: Text, rest: Text, path: Text)
    ensures
        path_in_crate(crate_name, crate_name + "::"@ + rest) == rest,
        path_in_crate(crate_name, path) == path || path == crate_name + "::"@ + path_in_crate(
            crate_name,
            path,
        ),
{
    let prefix = crate_name + "::"@;
    let whole = crate_name + "::"@ + rest;
    assert(whole.take(prefix.len() as int) =~= prefix);
    assert(whole.skip(prefix.len() as int) =~= rest);
    if path.len() >= prefix.len() && path.take(prefix.len() as int) == prefix {
        assert(path =~= prefix + path.skip(prefix.len() as int));
    }
}

/// The codec of an object stands in the package of its class; that of a tuple or an array is
/// shared.
pub proof fn codecs_stand_beside_their_class(
    ty: RustType,
    class: Text,
    package: Text,
    crate_root: Text,
)
    requires
        package_of(class) == Some(package),
    ensures
        !(ty.kind is Tuple) && !(ty.kind is Array) ==> codec_root(
            ty,
            Type::Class(class),
            crate_root,
        ) == package,
        ty.kind is Tuple || ty.kind is Array ==> codec_root(ty, Type::Class(class), crate_root)
            == "org/rustlang/core"@,
{
}

/// The name of a field by its number is found exactly where a class has a field of this number.
pub proof fn fields_are_found_by_number(owner: Text, index: usize, defs: DefinitionsModel)
    ensures
        field_name_at(owner, index, defs) is Ok <==> is_class(defs, owner) && index < fields_of(
            defs,
            owner,
        ).len(),
        field_name_at(owner, index, defs) matches Ok(name) ==> name == fields_of(defs, owner)[
            index as int
        ].0,
{
}

/// Adding a bound to what an interface is known by keeps what was there; a bound by an auto trait
/// adds nothing, and any other adds its path.
pub proof fn bounds_add_to_the_identity(bounds: Seq<Bound>, bound: Bound)
    ensures
        ({
            let before = bounds_identity(bounds, bounds.len());
            let after = bounds_identity(bounds.push(bound), bounds.push(bound).len());
            &&& after == bound_added(before, bound)
            &&& bound is AutoTrait ==> after == before
            &&& !(bound is AutoTrait) ==> after.key.len() > before.key.len()
            &&& before.key.len() <= after.key.len()
            &&& after.key.take(before.key.len() as int) == before.key
            &&& before.is_named ==> after.is_named
        }),
{
    let longer = bounds.push(bound);
    identity_is_local(bounds, bound, bounds.len());
    reveal_strlit("trait=");
    reveal_strlit("projection=");
    reveal_strlit("[");
    let before = bounds_identity(bounds, bounds.len());
    let after = bound_added(before, bound);
    match bound {
        Bound::Trait { path, arguments, .. } => {
            let started = crate::class_names::key_extended(before, "trait="@ + path@ + "["@);
            arguments_add_to_the_identity(started, arguments@, arguments@.len());
            let listed = arguments_added(started, arguments@, arguments@.len());
            assert(started.key.take(before.key.len() as int) =~= before.key);
            assert(after.key.take(listed.key.len() as int) =~= listed.key);
            starts_are_kept(before.key, started.key, listed.key);
            starts_are_kept(before.key, listed.key, after.key);
        },
        Bound::Projection { path, arguments, .. } => {
            let started = crate::class_names::key_extended(before, "projection="@ + path@ + "["@);
            arguments_add_to_the_identity(started, arguments@, arguments@.len());
            let listed = arguments_added(started, arguments@, arguments@.len());
            assert(started.key.take(before.key.len() as int) =~= before.key);
            assert(after.key.take(listed.key.len() as int) =~= listed.key);
            starts_are_kept(before.key, started.key, listed.key);
            starts_are_kept(before.key, listed.key, after.key);
        },
        Bound::AutoTrait { .. } => {
            assert(after.key.take(before.key.len() as int) =~= before.key);
        },
    }
}

proof fn starts_are_kept(a: Text, b: Text, c: Text)
    requires
        a.len() <= b.len() <= c.len(),
        b.take(a.len() as int) == a,
        c.take(b.len() as int) == b,
    ensures
        c.take(a.len() as int) == a,
{
    assert(c.take(a.len() as int) =~= c.take(b.len() as int).take(a.len() as int));
}

proof fn identity_is_local(bounds: Seq<Bound>, bound: Bound, n: nat)
    requires
        n <= bounds.len(),
    ensures
        bounds_identity(bounds.push(bound), n) == bounds_identity(bounds, n),
    decreases n,
{
    if n > 0 {
        identity_is_local(bounds, bound, (n - 1) as nat);
    }
}

proof fn arguments_add_to_the_identity(
    identity: InterfaceIdentityModel,
    arguments: Seq<GenericArg>,
    n: nat,
)
    ensures
        ({
            let after = arguments_added(identity, arguments, n);
            &&& identity.key.len() <= after.key.len()
            &&& after.key.take(identity.key.len() as int) == identity.key
            &&& identity.is_named ==> after.is_named
        }),
    decreases n,
{
    let after = arguments_added(identity, arguments, n);
    if !(n == 0 || n > arguments.len()) {
        arguments_add_to_the_identity(identity, arguments, (n - 1) as nat);
        let before = arguments_added(identity, arguments, (n - 1) as nat);
        assert(after.key.take(identity.key.len() as int) =~= before.key.take(
            identity.key.len() as int,
        ));
    } else {
        assert(after.key.take(identity.key.len() as int) =~= identity.key);
    }
}

/// The names of generic arguments; a lifetime has none.
pub open spec fn named_arguments(arguments: Seq<GenericArg>) -> Seq<GenericArg> {
    arguments.filter(|argument: GenericArg| !(argument is Region))
}

proof fn identities_are_joined(arguments: Seq<GenericArg>, n: nat)
    requires
        n <= arguments.len(),
    ensures
        argument_identities(arguments, n) == named_arguments(arguments.take(n as int)).fold_left(
            ""@,
            |text: Text, argument: GenericArg|
                text + argument_name(argument, NameStyle::Plain)->0 + "_"@,
        ),
    decreases n,
{
    reveal(Seq::filter);
    reveal_with_fuel(Seq::fold_left, 2);
    let front = arguments.take(n as int);
    if n > 0 {
        identities_are_joined(arguments, (n - 1) as nat);
        assert(front.drop_last() =~= arguments.take(n - 1));
        assert(front.last() == arguments[n - 1]);
        let before = named_arguments(front.drop_last());
        let all = named_arguments(front);
        if !(front.last() is Region) {
            assert(all =~= before.push(front.last()));
            assert(all.drop_last() =~= before);
        } else {
            assert(all =~= before);
        }
    } else {
        assert(front =~= Seq::<GenericArg>::empty());
        assert(named_arguments(front) =~= Seq::<GenericArg>::empty());
    }
}

/// What generic arguments are known by holds the name of each of them but the lifetimes, in order.
pub proof fn identities_hold_each_argument(arguments: Seq<GenericArg>)
    ensures
        argument_identities(arguments, arguments.len()) == named_arguments(arguments).fold_left(
            ""@,
            |text: Text, argument: GenericArg|
                text + argument_name(argument, NameStyle::Plain)->0 + "_"@,
        ),
        forall|i: int|
            0 <= i < named_arguments(arguments).len() ==> argument_name(
                #[trigger] named_arguments(arguments)[i],
                NameStyle::Plain,
            ) is Some,
{
    identities_are_joined(arguments, arguments.len());
    assert(arguments.take(arguments.len() as int) =~= arguments);
    let is_named = |argument: GenericArg| !(argument is Region);
    assert forall|i: int| 0 <= i < named_arguments(arguments).len() implies argument_name(
        #[trigger] named_arguments(arguments)[i],
        NameStyle::Plain,
    ) is Some by {
        arguments.lemma_filter_pred(is_named, i);
    }
}

/// A trait object needs an interface of its own if and only if one of its bounds fixes an
/// associated type, or a trait with a generic argument other than a lifetime.
pub proof fn special_bounds_need_an_interface(a: Seq<Bound>, b: Seq<Bound>)
    ensures
        needs_own_interface(a + b) <==> needs_own_interface(a) || needs_own_interface(b),
        a.len() == 1 && a[0] is Projection ==> needs_own_interface(a),
        a.len() == 1 && a[0] is AutoTrait ==> !needs_own_interface(a),
        a.len() == 1 ==> (a[0] matches Bound::Trait { arguments, .. } ==> (needs_own_interface(a)
            <==> named_arguments(arguments@).len() > 0)),
{
    let both = a + b;
    if needs_own_interface(both) {
        let i = choose|i: int| 0 <= i < both.len() && is_special(#[trigger] both[i]);
        if i < a.len() {
            assert(is_special(a[i]));
        } else {
            assert(is_special(b[i - a.len()]));
        }
    }
    if needs_own_interface(a) {
        let i = choose|i: int| 0 <= i < a.len() && is_special(#[trigger] a[i]);
        assert(is_special(both[i]));
    }
    if needs_own_interface(b) {
        let i = choose|i: int| 0 <= i < b.len() && is_special(#[trigger] b[i]);
        assert(is_special(both[a.len() + i]));
    }
    if a.len() == 1 {
        assert(is_special(a[0]) || !is_special(a[0]));
        if let Bound::Trait { arguments, .. } = a[0] {
            named_if_any(arguments@);
        }
    }
}

proof fn named_if_any(arguments: Seq<GenericArg>)
    ensures
        has_named_argument(arguments) <==> named_arguments(arguments).len() > 0,
    decreases arguments.len(),
{
    reveal(Seq::filter);
    if arguments.len() > 0 {
        let front = arguments.drop_last();
        named_if_any(front);
        if has_named_argument(arguments) {
            let i = choose|i: int| 0 <= i < arguments.len() && !(
                (#[trigger] arguments[i]) is Region
            );
            if i < front.len() {
                assert(!(front[i] is Region));
            }
        }
        if has_named_argument(front) {
            let i = choose|i: int| 0 <= i < front.len() && !((#[trigger] front[i]) is Region);
            assert(!(arguments[i] is Region));
        }
        assert(!(arguments.last() is Region) ==> has_named_argument(arguments)) by {
            if !(arguments.last() is Region) {
                assert(!(arguments[arguments.len() - 1] is Region));
            }
        }
    }
}

/// Two functions of one class have outlined parts under the same identity only if they have the
/// same name and the same descriptor.
pub proof fn identities_tell_functions_apart(owner: Text, a: FunctionModel, b: FunctionModel)
    requires
        forall|i: int| 0 <= i < a.name.len() ==> #[trigger] a.name[i] != '(',
        forall|i: int| 0 <= i < b.name.len() ==> #[trigger] b.name[i] != '(',
        identity_text(owner, a) == identity_text(owner, b),
    ensures
        a.name == b.name,
        method_descriptor(a.signature) == method_descriptor(b.signature),
{
    reveal_strlit("(");
    let start = owner + "::"@;
    let types_a = method_descriptor(a.signature);
    let types_b = method_descriptor(b.signature);
    assert(types_a[0] == '(' && types_b[0] == '(');
    let rest_a = identity_text(owner, a).skip(start.len() as int);
    let rest_b = identity_text(owner, b).skip(start.len() as int);
    assert(rest_a =~= a.name + types_a);
    assert(rest_b =~= b.name + types_b);
    assert(rest_a[a.name.len() as int] == '(');
    assert(rest_b[b.name.len() as int] == '(');
    if a.name.len() < b.name.len() {
        assert(rest_b[a.name.len() as int] == b.name[a.name.len() as int]);
    } else if b.name.len() < a.name.len() {
        assert(rest_a[b.name.len() as int] == a.name[b.name.len() as int]);
    }
    assert(a.name =~= rest_a.take(a.name.len() as int));
    assert(b.name =~= rest_b.take(b.name.len() as int));
    assert(types_a =~= rest_a.skip(a.name.len() as int));
    assert(types_b =~= rest_b.skip(b.name.len() as int));
}

} // verus!
