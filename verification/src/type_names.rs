//! Readable names of types, and the class names that are made of them.
use crate::names::{name_token, sanitize_name_token};
use crate::oomir::{Text, Type, TypeModel};
use crate::rust_type::{
    Bound, DynamicType, Field, GenericArg, IntKind, RustType, TypeKind, UintKind, lowered,
};
use crate::text::{
    cat2, cat3, cat4, chars_of, decimal, decimal_text, starts_with_text, strip_prefix,
};
use vstd::prelude::*;
use vstd::string::*;

verus! {

/// The longest name of a generated class, in bytes.
pub const MAX_TUPLE_NAME_LEN: usize = 180;

/// What the name of the class of a tuple starts with.
pub const TUPLE_PREFIX: &'static str = "org/rustlang/core/Tuple_";

/// The bytes that a character takes in UTF-8.
pub open spec fn char_bytes(c: char) -> nat {
    if (c as u32) < 0x80 {
        1
    } else if (c as u32) < 0x800 {
        2
    } else if (c as u32) < 0x1_0000 {
        3
    } else {
        4
    }
}

/// The bytes that a text takes in UTF-8.
pub open spec fn byte_length(text: Text) -> nat
    decreases text.len(),
{
    if text.len() == 0 {
        0
    } else {
        byte_length(text.drop_last()) + char_bytes(text.last())
    }
}

/// Whether a text takes at most a number of bytes.
pub fn fits_bytes(text: &str, limit: usize) -> (r: bool)
    ensures
        r == (byte_length(text@) <= limit),
{
    let chars = chars_of(text);
    let mut rest: usize = limit;
    assert(text@.take(0) =~= Seq::<char>::empty());
    for i in 0..chars.len()
        invariant
            chars@ == text@,
            rest <= limit,
            limit - rest == byte_length(text@.take(i as int)),
    {
        assert(text@.take(i + 1).drop_last() =~= text@.take(i as int));
        let c: char = chars[i];
        let n: u32 = c as u32;
        let width: usize = if n < 0x80 {
            1
        } else if n < 0x800 {
            2
        } else if n < 0x1_0000 {
            3
        } else {
            4
        };
        if rest < width {
            proof {
                longer_text_takes_more_bytes(text@, i + 1);
            }
            return false;
        }
        rest = rest - width;
    }
    assert(text@.take(chars@.len() as int) =~= text@);
    true
}

/// A text takes at least the bytes of what it starts with.
pub proof fn longer_text_takes_more_bytes(text: Text, n: int)
    requires
        0 <= n <= text.len(),
    ensures
        byte_length(text.take(n)) <= byte_length(text),
    decreases text.len() - n,
{
    if n < text.len() {
        longer_text_takes_more_bytes(text, n + 1);
        assert(text.take(n + 1).drop_last() =~= text.take(n));
    } else {
        assert(text.take(n) =~= text);
    }
}

/// The part of a path behind its last separator.
pub open spec fn last_segment(path: Text) -> Text
    decreases path.len(),
{
    if path.len() == 0 || path.last() == '/' {
        Seq::empty()
    } else {
        last_segment(path.drop_last()).push(path.last())
    }
}

/// Where the last separator of a path stands.
pub open spec fn last_separator(path: Text) -> Option<int>
    decreases path.len(),
{
    if path.len() == 0 {
        None
    } else if path.last() == '/' {
        Some(path.len() - 1)
    } else {
        last_separator(path.drop_last())
    }
}

/// The last segment of a path is what stands behind its last separator.
pub proof fn last_segment_is_behind_the_separator(path: Text)
    ensures
        match last_separator(path) {
            Some(i) => 0 <= i < path.len() && path[i] == '/'
                && last_segment(path) == path.skip(i + 1),
            None => last_segment(path) == path,
        },
    decreases path.len(),
{
    if path.len() > 0 && path.last() != '/' {
        last_segment_is_behind_the_separator(path.drop_last());
        match last_separator(path.drop_last()) {
            Some(i) => {
                assert(last_segment(path) =~= path.skip(i + 1));
            },
            None => {
                assert(last_segment(path) =~= path);
            },
        }
    } else {
        assert(last_segment(path) =~= path.skip(path.len() as int));
    }
}

/// Where the last separator of a path stands.
pub fn find_last_separator(path: &Vec<char>) -> (r: Option<usize>)
    ensures
        match r {
            Some(i) => i < path@.len() && last_separator(path@) == Some(i as int),
            None => last_separator(path@) is None,
        },
{
    let mut i: usize = path.len();
    assert(path@.take(path@.len() as int) =~= path@);
    while i > 0
        invariant
            i <= path@.len(),
            last_separator(path@) == last_separator(path@.take(i as int)),
        decreases i,
    {
        assert(path@.take(i as int).drop_last() =~= path@.take(i - 1));
        if path[i - 1] == '/' {
            return Some(i - 1);
        }
        i = i - 1;
    }
    None
}

fn tail_from(chars: &Vec<char>, start: usize) -> (r: String)
    requires
        start <= chars@.len(),
    ensures
        r@ == chars@.skip(start as int),
{
    let mut r = String::new();
    for i in start..chars.len()
        invariant
            start <= i <= chars@.len(),
            r@ == chars@.subrange(start as int, i as int),
    {
        assert(chars@.subrange(start as int, i + 1) =~= chars@.subrange(
            start as int,
            i as int,
        ).push(chars@[i as int]));
        r.push(chars[i]);
    }
    assert(chars@.subrange(start as int, chars@.len() as int) =~= chars@.skip(start as int));
    r
}

fn head_to(chars: &Vec<char>, end: usize) -> (r: String)
    requires
        end <= chars@.len(),
    ensures
        r@ == chars@.take(end as int),
{
    let mut r = String::new();
    for i in 0..end
        invariant
            end <= chars@.len(),
            r@ == chars@.take(i as int),
    {
        assert(chars@.take(i + 1) =~= chars@.take(i as int).push(chars@[i as int]));
        r.push(chars[i]);
    }
    r
}

/// The part of a path behind its last separator.
pub fn last_path_segment(path: &str) -> (r: String)
    ensures
        r@ == last_segment(path@),
{
    let chars = chars_of(path);
    proof {
        last_segment_is_behind_the_separator(path@);
    }
    match find_last_separator(&chars) {
        Some(i) => tail_from(&chars, i + 1),
        None => path.to_string(),
    }
}

/// The package of a class, if its name has one.
pub open spec fn package_of(path: Text) -> Option<Text> {
    match last_separator(path) {
        Some(i) => Some(path.take(i)),
        None => None,
    }
}

/// The package of a class, if its name has one.
pub fn class_package(path: &str) -> (r: Option<String>)
    ensures
        r.deep_view() == package_of(path@),
{
    let chars = chars_of(path);
    match find_last_separator(&chars) {
        Some(i) => Some(head_to(&chars, i)),
        None => None,
    }
}

/// A readable token for a type.
pub open spec fn type_token(ty: TypeModel) -> Text
    decreases ty,
{
    match ty {
        Type::Boolean => "bool"@,
        Type::Char => "char"@,
        Type::I8 => "i8"@,
        Type::U8 => "u8"@,
        Type::I16 => "i16"@,
        Type::U16 => "u16"@,
        Type::I32 => "i32"@,
        Type::U32 => "u32"@,
        Type::I64 => "i64"@,
        Type::U64 => "u64"@,
        Type::F16 => "f16"@,
        Type::F32 => "f32"@,
        Type::F64 => "f64"@,
        Type::Str => "Str"@,
        Type::Void => "Void"@,
        Type::Unit => "Unit"@,
        Type::Class(name) => last_segment(name),
        Type::Array(inner) => type_token(*inner) + "Array"@,
        Type::Slice(inner) => type_token(*inner) + "Slice"@,
        Type::Pointer(inner) => "Ptr"@ + type_token(*inner),
        Type::Reference(inner) => "Ref"@ + type_token(*inner),
        Type::MutableReference(inner) => "Ref"@ + type_token(*inner),
        Type::Interface(name) => "I"@ + last_segment(name),
    }
}

/// A readable token for a type.
pub fn readable_oomir_type_name(ty: &Type) -> (r: String)
    ensures
        r@ == type_token(ty.deep_view()),
    decreases ty,
{
    match ty {
        Type::Boolean => "bool".to_string(),
        Type::Char => "char".to_string(),
        Type::I8 => "i8".to_string(),
        Type::U8 => "u8".to_string(),
        Type::I16 => "i16".to_string(),
        Type::U16 => "u16".to_string(),
        Type::I32 => "i32".to_string(),
        Type::U32 => "u32".to_string(),
        Type::I64 => "i64".to_string(),
        Type::U64 => "u64".to_string(),
        Type::F16 => "f16".to_string(),
        Type::F32 => "f32".to_string(),
        Type::F64 => "f64".to_string(),
        Type::Str => "Str".to_string(),
        Type::Void => "Void".to_string(),
        Type::Unit => "Unit".to_string(),
        Type::Class(name) => last_path_segment(name.as_str()),
        Type::Array(inner) => cat2(readable_oomir_type_name(inner).as_str(), "Array"),
        Type::Slice(inner) => cat2(readable_oomir_type_name(inner).as_str(), "Slice"),
        Type::Pointer(inner) => cat2("Ptr", readable_oomir_type_name(inner).as_str()),
        Type::Reference(inner) => cat2("Ref", readable_oomir_type_name(inner).as_str()),
        Type::MutableReference(inner) => cat2("Ref", readable_oomir_type_name(inner).as_str()),
        Type::Interface(name) => cat2("I", last_path_segment(name.as_str()).as_str()),
    }
}

/// A token for a type that keeps the paths of classes.
pub open spec fn path_token(ty: TypeModel) -> Text
    decreases ty,
{
    match ty {
        Type::Class(name) => name_token(name),
        Type::Interface(name) => "I"@ + name_token(name),
        Type::Array(inner) => path_token(*inner) + "Array"@,
        Type::Slice(inner) => path_token(*inner) + "Slice"@,
        Type::Pointer(inner) => "Ptr"@ + path_token(*inner),
        Type::Reference(inner) => "Ref"@ + path_token(*inner),
        Type::MutableReference(inner) => "Ref"@ + path_token(*inner),
        other => type_token(other),
    }
}

/// A token for a type that keeps the paths of classes.
pub fn readable_tuple_abi_type_name(ty: &Type) -> (r: String)
    ensures
        r@ == path_token(ty.deep_view()),
    decreases ty,
{
    match ty {
        Type::Class(name) => sanitize_name_token(name.as_str()),
        Type::Interface(name) => cat2("I", sanitize_name_token(name.as_str()).as_str()),
        Type::Array(inner) => cat2(readable_tuple_abi_type_name(inner).as_str(), "Array"),
        Type::Slice(inner) => cat2(readable_tuple_abi_type_name(inner).as_str(), "Slice"),
        Type::Pointer(inner) => cat2("Ptr", readable_tuple_abi_type_name(inner).as_str()),
        Type::Reference(inner) => cat2("Ref", readable_tuple_abi_type_name(inner).as_str()),
        Type::MutableReference(inner) => cat2("Ref", readable_tuple_abi_type_name(inner).as_str()),
        _ => readable_oomir_type_name(ty),
    }
}

/// A path with underscores in place of separators.
pub open spec fn flattened(path: Text) -> Text {
    Seq::new(
        path.len(),
        |i: int|
            if path[i] == '/' {
                '_'
            } else {
                path[i]
            },
    )
}

fn flatten(path: &str) -> (r: String)
    ensures
        r@ == flattened(path@),
{
    let chars = chars_of(path);
    let mut r = String::new();
    for i in 0..chars.len()
        invariant
            chars@ == path@,
            r@ == flattened(path@).take(i as int),
    {
        assert(flattened(path@).take(i + 1) =~= flattened(path@).take(i as int).push(
            flattened(path@)[i as int],
        ));
        if chars[i] == '/' {
            r.push('_');
        } else {
            r.push(chars[i]);
        }
    }
    assert(flattened(path@).take(chars@.len() as int) =~= flattened(path@));
    r
}

/// The path of a class as a token, without the package that all generated classes share.
pub open spec fn class_token(class_name: Text) -> Text {
    name_token(
        flattened(
            if starts_with_text(class_name, "org/rustlang/"@) {
                class_name.skip("org/rustlang/"@.len() as int)
            } else {
                class_name
            },
        ),
    )
}

/// The path of a class as a token, without the package that all generated classes share.
pub fn readable_qualified_jvm_class(class_name: &str) -> (r: String)
    ensures
        r@ == class_token(class_name@),
{
    match strip_prefix(class_name, "org/rustlang/") {
        Some(rest) => sanitize_name_token(flatten(rest.as_str()).as_str()),
        None => sanitize_name_token(flatten(class_name).as_str()),
    }
}

/// The length of an array as a token.
pub open spec fn length_token(length: Option<u64>) -> Text {
    match length {
        Some(n) => decimal_text(n as nat),
        None => "Unknown"@,
    }
}

fn length_name(length: &Option<u64>) -> (r: String)
    ensures
        r@ == length_token(*length),
{
    match length {
        Some(n) => decimal(*n as u128),
        None => "Unknown".to_string(),
    }
}

/// The two ways to write the name of a type: plain, and with words between its parts.
#[derive(Debug, Clone, Copy, PartialEq, Eq, Structural)]
pub enum NameStyle {
    Plain,
    Codec,
}

/// What stands between a pointer and what it points to.
pub open spec fn pointer_word(style: NameStyle) -> Text {
    match style {
        NameStyle::Plain => ""@,
        NameStyle::Codec => "_to_"@,
    }
}

/// What stands between the parts of a name.
pub open spec fn joint(style: NameStyle) -> Text {
    match style {
        NameStyle::Plain => "_"@,
        NameStyle::Codec => "_and_"@,
    }
}

/// What stands between a name and its arguments.
pub open spec fn argument_word(style: NameStyle) -> Text {
    match style {
        NameStyle::Plain => "_"@,
        NameStyle::Codec => "_of_"@,
    }
}

/// What the name of a tuple starts with.
pub open spec fn tuple_word(style: NameStyle) -> Text {
    match style {
        NameStyle::Plain => "Tuple_"@,
        NameStyle::Codec => "Tuple_of_"@,
    }
}

fn word_of(style: NameStyle, plain: &str, codec: &str) -> (r: String)
    ensures
        r@ == (match style {
            NameStyle::Plain => plain@,
            NameStyle::Codec => codec@,
        }),
{
    match style {
        NameStyle::Plain => plain.to_string(),
        NameStyle::Codec => codec.to_string(),
    }
}

/// One more part of a name.
pub open spec fn names_joined(names: Text, name: Text, is_first: bool, style: NameStyle) -> Text {
    if is_first {
        name
    } else {
        names + joint(style) + name
    }
}

fn join(names: &str, name: &str, is_first: bool, style: NameStyle) -> (r: String)
    ensures
        r@ == names_joined(names@, name@, is_first, style),
{
    if is_first {
        name.to_string()
    } else {
        cat3(names, word_of(style, "_", "_and_").as_str(), name)
    }
}

/// The names of the first fields, joined.
pub open spec fn field_names(fields: Seq<Field>, style: NameStyle, n: nat) -> Text
    decreases fields, 0nat, n,
{
    if n == 0 || n > fields.len() {
        ""@
    } else {
        names_joined(
            field_names(fields, style, (n - 1) as nat),
            name_of_type(fields[n - 1].ty, style),
            n == 1,
            style,
        )
    }
}

/// The name of a generic argument; lifetimes have none.
pub open spec fn argument_name(argument: GenericArg, style: NameStyle) -> Option<Text>
    decreases argument, 2nat, 0nat,
{
    match argument {
        GenericArg::Type(ty) => Some(name_of_type(ty, style)),
        GenericArg::Const(value) => Some(
            match style {
                NameStyle::Plain => value@,
                NameStyle::Codec => "Const_"@ + value@,
            },
        ),
        GenericArg::Region => None,
    }
}

/// The names of the first generic arguments that have one, joined, and whether there is any.
pub open spec fn argument_names(
    arguments: Seq<GenericArg>,
    style: NameStyle,
    n: nat,
) -> (Text, bool)
    decreases arguments, 0nat, n,
{
    if n == 0 || n > arguments.len() {
        (""@, false)
    } else {
        let rest = argument_names(arguments, style, (n - 1) as nat);
        match argument_name(arguments[n - 1], style) {
            Some(name) => (names_joined(rest.0, name, !rest.1, style), true),
            None => rest,
        }
    }
}

/// A name with its generic arguments.
pub open spec fn with_arguments(
    base: Text,
    arguments: Seq<GenericArg>,
    style: NameStyle,
) -> Text
    decreases arguments, 1nat, 0nat,
{
    let names = argument_names(arguments, style, arguments.len());
    if names.1 {
        base + argument_word(style) + names.0
    } else {
        base
    }
}

/// The names of the auto traits among the first bounds, joined, and whether there is any.
pub open spec fn auto_trait_names(bounds: Seq<Bound>, style: NameStyle, n: nat) -> (Text, bool)
    decreases n,
{
    if n == 0 || n > bounds.len() {
        (""@, false)
    } else {
        let rest = auto_trait_names(bounds, style, (n - 1) as nat);
        match bounds[n - 1] {
            Bound::AutoTrait { interface_name, .. } => (
                names_joined(rest.0, class_token(interface_name@), !rest.1, style),
                true,
            ),
            _ => rest,
        }
    }
}

/// The name of a trait object whose interface has a name.
pub open spec fn dynamic_name(base: Text, dynamic: DynamicType, style: NameStyle) -> Text {
    let whole = match (style, dynamic.region_digest) {
        (NameStyle::Plain, Some(digest)) => base + "_"@ + digest@,
        _ => base,
    };
    let names = auto_trait_names(dynamic.bounds@, style, dynamic.bounds@.len());
    if names.1 {
        whole + joint(style) + names.0
    } else {
        whole
    }
}

/// A readable name of a type that keeps apart what the JVM does not.
pub open spec fn name_of_type(ty: RustType, style: NameStyle) -> Text
    decreases ty, 1nat, 0nat,
{
    match ty.kind {
        TypeKind::Ref { pointee, mutable } => (if mutable {
            "MutRef"@
        } else {
            "Ref"@
        }) + pointer_word(style) + name_of_type(*pointee, style),
        TypeKind::RawPtr { pointee, mutable } => (if mutable {
            "MutPtr"@
        } else {
            "ConstPtr"@
        }) + pointer_word(style) + name_of_type(*pointee, style),
        TypeKind::Array { element, length } => match style {
            NameStyle::Plain => name_of_type(*element, style) + "Array"@ + length_token(length),
            NameStyle::Codec => "Array"@ + length_token(length) + "_of_"@ + name_of_type(
                *element,
                style,
            ),
        },
        TypeKind::Slice(element) => match style {
            NameStyle::Plain => name_of_type(*element, style) + "Slice"@,
            NameStyle::Codec => "Slice_of_"@ + name_of_type(*element, style),
        },
        TypeKind::Tuple { elements, .. } => if elements@.len() == 0 {
            "Unit"@
        } else {
            tuple_word(style) + field_names(elements@, style, elements@.len())
        },
        TypeKind::Dynamic(dynamic) => dynamic_name(type_token(lowered(ty)), dynamic, style),
        TypeKind::Adt(adt) => with_arguments(
            class_token(adt.definition_class@),
            adt.arguments@,
            style,
        ),
        TypeKind::FnDef { class_name, .. } => class_token(class_name@),
        TypeKind::Char => "char"@,
        TypeKind::Int(IntKind::Isize) => "isize"@,
        TypeKind::Uint(UintKind::Usize) => "usize"@,
        _ => type_token(lowered(ty)),
    }
}

/// A pointer never has the name of what it points to, although both may be represented alike, and
/// the four kinds of pointers to a type all have different names.
pub proof fn pointers_are_named_apart(pointee: RustType, a: RustType, b: RustType, style: NameStyle)
    requires
        (a.kind matches TypeKind::Ref { pointee: p, .. } && *p == pointee) || (a.kind matches
            TypeKind::RawPtr { pointee: p, .. } && *p == pointee),
        (b.kind matches TypeKind::Ref { pointee: p, .. } && *p == pointee) || (b.kind matches
            TypeKind::RawPtr { pointee: p, .. } && *p == pointee),
        a.kind != b.kind,
    ensures
        name_of_type(a, style) != name_of_type(pointee, style),
        name_of_type(a, style) != name_of_type(b, style),
{
    reveal_strlit("Ref");
    reveal_strlit("MutRef");
    reveal_strlit("ConstPtr");
    reveal_strlit("MutPtr");
    let name = name_of_type(pointee, style);
    let x = name_of_type(a, style);
    let y = name_of_type(b, style);
    assert(x.len() > name.len());
    assert("MutRef"@[3] == 'R' && "MutPtr"@[3] == 'P');
    if x.len() == y.len() {
        assert(x[3] != y[3]);
    }
}

fn make_field_names(fields: &Vec<Field>, style: NameStyle) -> (r: String)
    ensures
        r@ == field_names(fields@, style, fields@.len()),
    decreases fields@, 0nat,
{
    let mut r = "".to_string();
    for i in 0..fields.len()
        invariant
            r@ == field_names(fields@, style, i as nat),
    {
        let name = make_type_name(&fields[i].ty, style);
        r = join(r.as_str(), name.as_str(), i == 0, style);
    }
    r
}

fn make_argument_name(argument: &GenericArg, style: NameStyle) -> (r: Option<String>)
    ensures
        r.deep_view() == argument_name(*argument, style),
    decreases argument, 2nat,
{
    match argument {
        GenericArg::Type(ty) => Some(make_type_name(ty, style)),
        GenericArg::Const(value) => match style {
            NameStyle::Plain => Some(value.clone()),
            NameStyle::Codec => Some(cat2("Const_", value.as_str())),
        },
        GenericArg::Region => None,
    }
}

fn make_with_arguments(base: &str, arguments: &Vec<GenericArg>, style: NameStyle) -> (r: String)
    ensures
        r@ == with_arguments(base@, arguments@, style),
    decreases arguments@, 1nat,
{
    let mut names = "".to_string();
    let mut found: bool = false;
    for i in 0..arguments.len()
        invariant
            (names@, found) == argument_names(arguments@, style, i as nat),
    {
        match make_argument_name(&arguments[i], style) {
            Some(name) => {
                names = join(names.as_str(), name.as_str(), !found, style);
                found = true;
            },
            None => {},
        }
    }
    if found {
        cat3(base, word_of(style, "_", "_of_").as_str(), names.as_str())
    } else {
        base.to_string()
    }
}

fn make_dynamic_name(base: &str, dynamic: &DynamicType, style: NameStyle) -> (r: String)
    ensures
        r@ == dynamic_name(base@, *dynamic, style),
{
    let whole = match (style, &dynamic.region_digest) {
        (NameStyle::Plain, Some(digest)) => cat3(base, "_", digest.as_str()),
        _ => base.to_string(),
    };
    let mut names = "".to_string();
    let mut found: bool = false;
    for i in 0..dynamic.bounds.len()
        invariant
            (names@, found) == auto_trait_names(dynamic.bounds@, style, i as nat),
    {
        match &dynamic.bounds[i] {
            Bound::AutoTrait { interface_name, .. } => {
                let name = readable_qualified_jvm_class(interface_name.as_str());
                names = join(names.as_str(), name.as_str(), !found, style);
                found = true;
            },
            _ => {},
        }
    }
    if found {
        cat3(whole.as_str(), word_of(style, "_", "_and_").as_str(), names.as_str())
    } else {
        whole
    }
}

fn make_type_name(ty: &RustType, style: NameStyle) -> (r: String)
    ensures
        r@ == name_of_type(*ty, style),
    decreases ty, 1nat,
{
    match &ty.kind {
        TypeKind::Ref { pointee, mutable } => cat3(
            if *mutable {
                "MutRef"
            } else {
                "Ref"
            },
            word_of(style, "", "_to_").as_str(),
            make_type_name(pointee, style).as_str(),
        ),
        TypeKind::RawPtr { pointee, mutable } => cat3(
            if *mutable {
                "MutPtr"
            } else {
                "ConstPtr"
            },
            word_of(style, "", "_to_").as_str(),
            make_type_name(pointee, style).as_str(),
        ),
        TypeKind::Array { element, length } => {
            let name = make_type_name(element, style);
            match style {
                NameStyle::Plain => cat3(name.as_str(), "Array", length_name(length).as_str()),
                NameStyle::Codec => cat4(
                    "Array",
                    length_name(length).as_str(),
                    "_of_",
                    name.as_str(),
                ),
            }
        },
        TypeKind::Slice(element) => {
            let name = make_type_name(element, style);
            match style {
                NameStyle::Plain => cat2(name.as_str(), "Slice"),
                NameStyle::Codec => cat2("Slice_of_", name.as_str()),
            }
        },
        TypeKind::Tuple { elements, .. } => {
            if elements.len() == 0 {
                "Unit".to_string()
            } else {
                cat2(
                    word_of(style, "Tuple_", "Tuple_of_").as_str(),
                    make_field_names(elements, style).as_str(),
                )
            }
        },
        TypeKind::Dynamic(dynamic) => make_dynamic_name(
            readable_oomir_type_name(&ty.jvm_type()).as_str(),
            dynamic,
            style,
        ),
        TypeKind::Adt(adt) => make_with_arguments(
            readable_qualified_jvm_class(adt.definition_class.as_str()).as_str(),
            &adt.arguments,
            style,
        ),
        TypeKind::FnDef { class_name, .. } => readable_qualified_jvm_class(class_name.as_str()),
        TypeKind::Char => "char".to_string(),
        TypeKind::Int(IntKind::Isize) => "isize".to_string(),
        TypeKind::Uint(UintKind::Usize) => "usize".to_string(),
        _ => readable_oomir_type_name(&ty.jvm_type()),
    }
}

/// A readable name of a type that keeps apart what the JVM does not.
pub fn readable_rust_type_name(ty: &RustType) -> (r: String)
    ensures
        r@ == name_of_type(*ty, NameStyle::Plain),
{
    make_type_name(ty, NameStyle::Plain)
}

/// A readable name of a type for its codec, with words between its parts.
pub fn readable_pointer_codec_type_name(ty: &RustType) -> (r: String)
    ensures
        r@ == name_of_type(*ty, NameStyle::Codec),
{
    make_type_name(ty, NameStyle::Codec)
}

/// A readable name of a generic argument; lifetimes have none.
pub fn readable_rust_generic_arg_name(argument: &GenericArg) -> (r: Option<String>)
    ensures
        r.deep_view() == argument_name(*argument, NameStyle::Plain),
{
    make_argument_name(argument, NameStyle::Plain)
}

} // verus!
