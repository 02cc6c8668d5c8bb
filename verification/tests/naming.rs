use jvm_lowering::class_names::{
    adt_name_identity, dynamic_interface_identity, generate_adt_jvm_class_name,
    generate_tuple_jvm_class_name, get_field_name_from_index, mir_int_to_oomir_const,
    needs_specialized_interface, pointer_codec_class_name, stable_def_path,
    stable_instance_identity, stable_instance_key, tuple_identity, TupleNames,
};
use jvm_lowering::code::Definitions;
use jvm_lowering::descriptor::oomir_type_to_ristretto_field_type;
use jvm_lowering::name_map::NameMap;
use jvm_lowering::names::{
    short_hash, union_from_method_name, union_getter_method_name, union_setter_method_name,
};
use jvm_lowering::oomir::{Constant, DataType, Type};
use jvm_lowering::rust_type::{
    Bound, GenericArg, IntKind, RustType, TypeKind, UintKind, ZeroSized,
};
use jvm_lowering::type_names::{
    class_package, last_path_segment, readable_oomir_type_name, readable_pointer_codec_type_name,
    readable_qualified_jvm_class, readable_rust_generic_arg_name, readable_rust_type_name,
    readable_tuple_abi_type_name, MAX_TUPLE_NAME_LEN,
};

fn ty(kind: TypeKind, text: &str, size: usize) -> RustType {
    RustType {
        kind,
        text: text.to_string(),
        size: Ok(size),
        is_sized: true,
        is_open: false,
        needs_drop: false,
        codec_class: format!("codec/{text}"),
        zero_sized: ZeroSized::Unknown,
        drop_code: Vec::new(),
    }
}

fn i32_ty() -> RustType {
    ty(TypeKind::Int(IntKind::I32), "i32", 4)
}

fn u8_ty() -> RustType {
    ty(TypeKind::Uint(UintKind::U8), "u8", 1)
}

#[test]
fn paths_are_taken_apart_at_their_last_separator() {
    assert_eq!(last_path_segment("org/rustlang/core/Option"), "Option");
    assert_eq!(last_path_segment("Option"), "Option");
    assert_eq!(last_path_segment("a/"), "");
    assert_eq!(class_package("org/rustlang/core/Option"), Some("org/rustlang/core".to_string()));
    assert_eq!(class_package("Option"), None);
}

#[test]
fn value_types_have_readable_names() {
    assert_eq!(readable_oomir_type_name(&Type::I32), "i32");
    assert_eq!(
        readable_oomir_type_name(&Type::Array(Box::new(Type::Class("a/b/C".to_string())))),
        "CArray"
    );
    assert_eq!(readable_oomir_type_name(&Type::Pointer(Box::new(Type::U8))), "Ptru8");
    assert_eq!(readable_oomir_type_name(&Type::Interface("a/Run".to_string())), "IRun");
    assert_eq!(readable_tuple_abi_type_name(&Type::Class("a/b/C".to_string())), "a_b_C");
    assert_eq!(readable_tuple_abi_type_name(&Type::Slice(Box::new(Type::Boolean))), "boolSlice");
    assert_eq!(readable_qualified_jvm_class("org/rustlang/core/Option"), "core_Option");
    assert_eq!(readable_qualified_jvm_class("game/World"), "game_World");
}

#[test]
fn rust_types_have_readable_names() {
    let reference = ty(
        TypeKind::Ref { pointee: Box::new(i32_ty()), mutable: true },
        "&mut i32",
        8,
    );
    assert_eq!(readable_rust_type_name(&reference), "MutRefi32");
    let array = ty(
        TypeKind::Array { element: Box::new(u8_ty()), length: Some(3) },
        "[u8; 3]",
        3,
    );
    assert_eq!(readable_rust_type_name(&array), "u8Array3");
    assert_eq!(readable_pointer_codec_type_name(&array), "Array3_of_u8");
    let usize_ty = ty(TypeKind::Uint(UintKind::Usize), "usize", 8);
    assert_eq!(readable_rust_type_name(&usize_ty), "usize");
    let unit = ty(
        TypeKind::Tuple { class_name: "Unit".to_string(), elements: Vec::new() },
        "()",
        0,
    );
    assert_eq!(readable_rust_type_name(&unit), "Unit");
}

#[test]
fn the_kinds_of_pointers_have_names_of_their_own() {
    let pointee = || Box::new(i32_ty());
    let kinds = [
        TypeKind::Ref { pointee: pointee(), mutable: false },
        TypeKind::Ref { pointee: pointee(), mutable: true },
        TypeKind::RawPtr { pointee: pointee(), mutable: false },
        TypeKind::RawPtr { pointee: pointee(), mutable: true },
    ];
    let mut names: Vec<String> = vec![readable_rust_type_name(&i32_ty())];
    for kind in kinds {
        names.push(readable_rust_type_name(&ty(kind, "pointer", 8)));
    }
    assert_eq!(names, ["i32", "Refi32", "MutRefi32", "ConstPtri32", "MutPtri32"]);
}

#[test]
fn generic_arguments_have_names_unless_they_are_lifetimes() {
    assert_eq!(
        readable_rust_generic_arg_name(&GenericArg::Type(i32_ty())),
        Some("i32".to_string())
    );
    assert_eq!(readable_rust_generic_arg_name(&GenericArg::Region), None);
}

#[test]
fn named_types_carry_their_arguments_in_the_class_name() {
    let arguments = vec![GenericArg::Type(i32_ty()), GenericArg::Region, GenericArg::Type(u8_ty())];
    assert_eq!(
        generate_adt_jvm_class_name("game/Map", &arguments, "0123456789"),
        "game/Map_i32_u8"
    );
    assert_eq!(generate_adt_jvm_class_name("game/World", &Vec::new(), "0123456789"), "game/World");
}

#[test]
fn a_class_name_that_is_too_long_ends_in_a_hash() {
    let long = "N".repeat(MAX_TUPLE_NAME_LEN);
    let definition = format!("game/{long}");
    let arguments = vec![GenericArg::Type(i32_ty())];
    assert_eq!(
        generate_adt_jvm_class_name(&definition, &arguments, "0123456789"),
        format!("game/{long}_0123456789")
    );
}

#[test]
fn the_identity_of_a_class_name_holds_its_arguments() {
    let a = adt_name_identity("game/Map", &vec![GenericArg::Type(i32_ty())]);
    let b = adt_name_identity("game/Map", &vec![GenericArg::Type(u8_ty())]);
    assert_ne!(a, b);
}

fn opaque(class_name: &str) -> RustType {
    ty(
        TypeKind::Closure {
            class_name: class_name.to_string(),
            captures: Vec::new(),
            arguments: Vec::new(),
        },
        class_name,
        0,
    )
}

#[test]
fn tuples_with_the_same_readable_name_do_not_share_a_class() {
    let mut defs: Definitions = NameMap::new();
    let mut names: TupleNames = NameMap::new();
    let first = generate_tuple_jvm_class_name(
        &vec![opaque("a/b/C"), i32_ty()],
        "1111111111",
        &mut defs,
        &mut names,
    );
    let second = generate_tuple_jvm_class_name(
        &vec![opaque("a/b_C"), i32_ty()],
        "2222222222",
        &mut defs,
        &mut names,
    );
    let again = generate_tuple_jvm_class_name(
        &vec![opaque("a/b/C"), i32_ty()],
        "1111111111",
        &mut defs,
        &mut names,
    );
    assert!(first.ends_with("a_b_C_i32"), "{first}");
    assert_eq!(second, format!("{first}_2222222222"));
    assert_eq!(again, first);
}

#[test]
fn a_long_tuple_name_is_a_hash() {
    let mut defs: Definitions = NameMap::new();
    let mut names: TupleNames = NameMap::new();
    let long = "N".repeat(MAX_TUPLE_NAME_LEN);
    let name = generate_tuple_jvm_class_name(
        &vec![opaque(&long)],
        "1111111111",
        &mut defs,
        &mut names,
    );
    assert!(name.ends_with("1111111111"));
    assert!(name.len() <= MAX_TUPLE_NAME_LEN);
    for length in [1, 150, 155, 156, 157, 200] {
        let name = generate_tuple_jvm_class_name(
            &vec![opaque(&"M".repeat(length))],
            "2222222222",
            &mut defs,
            &mut names,
        );
        assert!(name.len() <= 180, "{length}: {name}");
        assert_eq!(name.ends_with('M'), length <= 156);
    }
}

#[test]
fn trait_objects_with_arguments_have_interfaces_of_their_own() {
    let plain = vec![Bound::Trait {
        interface_name: "Show".to_string(),
        path: "game::Show".to_string(),
        arguments: Vec::new(),
        defined_here: true,
    }];
    let generic = vec![
        Bound::Trait {
            interface_name: "Iter".to_string(),
            path: "core::Iterator".to_string(),
            arguments: vec![GenericArg::Type(u8_ty())],
            defined_here: false,
        },
        Bound::Projection {
            path: "core::Iterator::Item".to_string(),
            item_name: "Item".to_string(),
            arguments: Vec::new(),
            term: Box::new(GenericArg::Type(i32_ty())),
        },
    ];
    assert!(!needs_specialized_interface(&plain));
    assert!(needs_specialized_interface(&generic));
    let identity = dynamic_interface_identity(&generic).unwrap();
    assert_eq!(
        identity.key,
        "trait=core::Iterator[type=u8;];projection=core::Iterator::Item[]=i32;"
    );
    assert_eq!(identity.readable, "u8_Item_i32");
    assert!(dynamic_interface_identity(&plain).is_none());
}

#[test]
fn codecs_stand_beside_the_class_that_they_encode() {
    let pair = ty(
        TypeKind::Tuple { class_name: "P".to_string(), elements: Vec::new() },
        "()",
        0,
    );
    assert_eq!(
        pointer_codec_class_name(&pair, "PointerCodec_P", &Type::Unit, "game"),
        "org/rustlang/core/PointerCodec_P"
    );
    assert_eq!(
        pointer_codec_class_name(&i32_ty(), "X", &Type::Class("a/b/C".to_string()), "game"),
        "a/b/X"
    );
    assert_eq!(
        pointer_codec_class_name(&i32_ty(), "X", &Type::Class("C".to_string()), "game"),
        "game/X"
    );
    assert_eq!(pointer_codec_class_name(&i32_ty(), "X", &Type::I32, "game"), "game/X");
}

#[test]
fn paths_do_not_name_their_crate() {
    assert_eq!(stable_def_path("core", "core::option::Option"), "option::Option");
    assert_eq!(stable_def_path("core", "alloc::vec::Vec"), "alloc::vec::Vec");
    assert_eq!(stable_def_path("core", "corex::y"), "corex::y");
    assert_eq!(stable_instance_key("core", "core::mem::swap::<u8>"), "mem::swap::<u8>");
    assert_eq!(stable_instance_identity(0xabc), "0000000000000abc");
    assert_eq!(stable_instance_identity(u64::MAX), "ffffffffffffffff");
}

#[test]
fn integers_become_constants_of_their_type() {
    assert_eq!(mir_int_to_oomir_const(0xff, &u8_ty()), Constant::U8(255));
    assert_eq!(mir_int_to_oomir_const(0xffff_ffff, &i32_ty()), Constant::I32(-1));
    assert_eq!(
        mir_int_to_oomir_const(u128::MAX, &ty(TypeKind::Int(IntKind::Isize), "isize", 8)),
        Constant::I64(-1)
    );
    match mir_int_to_oomir_const(u128::MAX, &ty(TypeKind::Int(IntKind::I128), "i128", 16)) {
        Constant::Instance { param, .. } => assert_eq!(param, "-1"),
        other => panic!("{other:?}"),
    }
    match mir_int_to_oomir_const(u128::MAX, &ty(TypeKind::Uint(UintKind::U128), "u128", 16)) {
        Constant::Instance { param, .. } => {
            assert_eq!(param, "340282366920938463463374607431768211455")
        }
        other => panic!("{other:?}"),
    }
    assert_eq!(
        mir_int_to_oomir_const(1, &ty(TypeKind::Bool, "bool", 1)),
        Constant::Boolean(true)
    );
    assert_eq!(mir_int_to_oomir_const(65, &ty(TypeKind::Char, "char", 4)), Constant::I32(65));
    for (kind, size, expected) in [
        (UintKind::U16, 2, Constant::U16(u16::MAX)),
        (UintKind::U32, 4, Constant::U32(u32::MAX)),
        (UintKind::U64, 8, Constant::U64(u64::MAX)),
        (UintKind::Usize, 8, Constant::U64(u64::MAX)),
    ] {
        assert_eq!(mir_int_to_oomir_const(u128::MAX, &ty(TypeKind::Uint(kind), "", size)), expected);
    }
    assert_eq!(mir_int_to_oomir_const(65, &ty(TypeKind::Str, "str", 0)), Constant::I32(0));
}

#[test]
fn fields_are_found_by_position() {
    let mut defs: Definitions = NameMap::new();
    defs.insert(
        "P".to_string(),
        DataType::Class {
            fields: vec![("x".to_string(), Type::I32), ("y".to_string(), Type::I32)],
            is_abstract: false,
            methods: NameMap::new(),
            super_class: None,
            interfaces: Vec::new(),
        },
    );
    defs.insert("I".to_string(), DataType::Interface { methods: NameMap::new() });
    assert_eq!(get_field_name_from_index("P", 1, &defs), Ok("y".to_string()));
    assert_eq!(
        get_field_name_from_index("P", 2, &defs),
        Err("Field index 2 out of bounds for class 'P' (has 2 fields)".to_string())
    );
    assert_eq!(
        get_field_name_from_index("I", 0, &defs),
        Err("Expected class, found interface I".to_string())
    );
    assert_eq!(
        get_field_name_from_index("Q", 0, &defs),
        Err("DataType not found for class 'Q'".to_string())
    );
}

#[test]
fn union_members_have_three_methods() {
    assert_eq!(union_from_method_name("a"), "from_a");
    assert_eq!(union_getter_method_name("a"), "get_a");
    assert_eq!(union_setter_method_name("a"), "set_a");
}

#[test]
fn hashes_are_cut_to_length() {
    assert_eq!(short_hash("0123456789", 4), "0123");
    assert_eq!(short_hash("0123", 10), "0123");
    assert_eq!(short_hash("0123", 0), "");
}

#[test]
fn field_types_follow_the_value_types() {
    let object = oomir_type_to_ristretto_field_type(&Type::Class("a/B".to_string()));
    assert_eq!(format!("{object:?}"), "Object(\"a/B\")");
    let longs = oomir_type_to_ristretto_field_type(&Type::Array(Box::new(Type::U64)));
    assert_eq!(format!("{longs:?}"), "Array(Base(Long))");
}

#[test]
fn a_name_map_keeps_the_order_of_its_names() {
    let mut map: NameMap<u32> = NameMap::new();
    map.insert("b".to_string(), 1);
    map.insert("a".to_string(), 2);
    map.insert("b".to_string(), 3);
    assert_eq!(map.len(), 2);
    assert_eq!(map.get("b"), Some(&3));
    assert_eq!(map.get("a"), Some(&2));
    assert_eq!(map.get("c"), None);
    assert_eq!(map.key_at(0), "b");
    assert_eq!(map.position("a"), Some(1));
    assert!(map.contains_key("a"));
    let without = map.without("b");
    assert_eq!(without.len(), 1);
    assert_eq!(without.key_at(0), "a");
    assert_eq!(without.get("b"), None);
    assert_eq!(without.get("a"), Some(&2));
}

#[test]
fn the_identity_of_a_tuple_names_its_elements() {
    assert_eq!(tuple_identity(&vec![i32_ty(), u8_ty(), i32_ty()]), "i32_u8_i32");
    assert_eq!(tuple_identity(&Vec::new()), "");
}
