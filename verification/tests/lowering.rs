use jvm_lowering::abi::{
    callable_trait_object_abi, fn_ptr_signature_from_ty, force_define_external_mir_adts,
    has_open_jvm_abi_type, should_define_named_data_type, ty_to_erased_oomir_type,
    ty_to_oomir_type,
};
use jvm_lowering::code::Definitions;
use jvm_lowering::layout::exact_bytes_supported;
use jvm_lowering::lowering::{define_type, managed_drop_actions};
use jvm_lowering::name_map::NameMap;
use jvm_lowering::oomir::{DataType, DataTypeMethod, Instruction, Operand, Signature, Type};
use jvm_lowering::platform::{futex_timeout_nanos, unsupported, unsupported_err, ErrorKind};
use jvm_lowering::pointer_codec::{
    ensure_pointer_memory_codec, fat_pointer_codec_operand, pointer_builtin_codec_operand,
};
use jvm_lowering::rust_type::{
    Adt, CallInterface, CallShape, Coroutine, DiscriminantKind, DynamicType, Field, GenericArg,
    IntKind, Role, RustType, Shape, TypeKind, UintKind, Variant, VariantLayout, ZeroSized,
};

fn ty(kind: TypeKind, text: &str, size: usize) -> RustType {
    RustType {
        kind,
        text: text.to_string(),
        size: Ok(size),
        is_sized: true,
        is_open: false,
        needs_drop: false,
        codec_class: format!("codec/{text}"),
        zero_sized: ZeroSized::Unknown,
        drop_code: Vec::new(),
    }
}

fn i32_ty() -> RustType {
    ty(TypeKind::Int(IntKind::I32), "i32", 4)
}

fn u8_ty() -> RustType {
    ty(TypeKind::Uint(UintKind::U8), "u8", 1)
}

fn field(name: &str, ty: RustType, offset: usize) -> Field {
    Field { name: name.to_string(), ty, offset }
}

fn adt(shape: Shape, class_name: &str, fields: Vec<Field>) -> Adt {
    Adt {
        shape,
        role: Role::Plain,
        class_name: class_name.to_string(),
        definition_class: class_name.to_string(),
        arguments: Vec::new(),
        defined_here: true,
        has_destructor: false,
        discriminants: DiscriminantKind::Other,
        variants: vec![Variant { name: "V".to_string(), discriminant: 0, fields }],
        layout: Ok(VariantLayout::Single { variant: 0 }),
        is_described: true,
    }
}

fn point() -> RustType {
    ty(
        TypeKind::Adt(adt(
            Shape::Struct,
            "game/Point",
            vec![field("x", i32_ty(), 0), field("y", u8_ty(), 4)],
        )),
        "Point",
        8,
    )
}

#[test]
fn numbers_lower_to_numbers() {
    let mut defs: Definitions = NameMap::new();
    assert_eq!(ty_to_oomir_type(&i32_ty(), &mut defs), Type::I32);
    assert_eq!(ty_to_oomir_type(&u8_ty(), &mut defs), Type::U8);
    assert_eq!(
        ty_to_oomir_type(&ty(TypeKind::Uint(UintKind::Usize), "usize", 8), &mut defs),
        Type::U64
    );
    assert_eq!(ty_to_oomir_type(&ty(TypeKind::Char, "char", 4), &mut defs), Type::I32);
    assert_eq!(ty_to_oomir_type(&ty(TypeKind::Bool, "bool", 1), &mut defs), Type::Boolean);
    assert_eq!(
        ty_to_oomir_type(&ty(TypeKind::Int(IntKind::I128), "i128", 16), &mut defs),
        Type::Class("org/rustlang/runtime/I128".to_string())
    );
    assert_eq!(defs.len(), 0);
}

#[test]
fn a_struct_defines_its_class() {
    let mut defs: Definitions = NameMap::new();
    assert_eq!(
        ty_to_oomir_type(&point(), &mut defs),
        Type::Class("game/Point".to_string())
    );
    match defs.get("game/Point") {
        Some(DataType::Class { fields, is_abstract, methods, super_class, .. }) => {
            assert_eq!(fields[0], ("x".to_string(), Type::I32));
            assert_eq!(fields[1], ("y".to_string(), Type::U8));
            assert!(!*is_abstract);
            assert!(methods.contains_key("eq"));
            assert_eq!(*super_class, None);
        }
        other => panic!("{other:?}"),
    }
}

#[test]
fn lowering_twice_changes_nothing() {
    let mut defs: Definitions = NameMap::new();
    ty_to_oomir_type(&point(), &mut defs);
    let before = format!("{defs:?}");
    ty_to_oomir_type(&point(), &mut defs);
    assert_eq!(format!("{defs:?}"), before);
}

#[test]
fn a_union_has_bytes_and_objects_and_methods_for_each_member() {
    let mut defs: Definitions = NameMap::new();
    let union_ty = ty(
        TypeKind::Adt(adt(
            Shape::Union,
            "game/Bits",
            vec![field("int", i32_ty(), 0), field("byte", u8_ty(), 0)],
        )),
        "Bits",
        4,
    );
    ty_to_oomir_type(&union_ty, &mut defs);
    match defs.get("game/Bits") {
        Some(DataType::Class { fields, methods, .. }) => {
            assert_eq!(fields.len(), 2);
            for name in ["from_int", "get_int", "set_int", "from_byte", "get_byte", "set_byte"] {
                assert!(methods.contains_key(name), "{name}");
            }
        }
        other => panic!("{other:?}"),
    }
}

#[test]
fn tuples_and_closures_define_classes() {
    let mut defs: Definitions = NameMap::new();
    let pair = ty(
        TypeKind::Tuple {
            class_name: "Pair".to_string(),
            elements: vec![field("0", i32_ty(), 0), field("1", point(), 8)],
        },
        "(i32, Point)",
        16,
    );
    assert_eq!(ty_to_oomir_type(&pair, &mut defs), Type::Class("Pair".to_string()));
    assert!(defs.contains_key("Pair"));
    assert!(defs.contains_key("game/Point"));
    let unit = ty(
        TypeKind::Tuple { class_name: "Unit".to_string(), elements: Vec::new() },
        "()",
        0,
    );
    assert_eq!(ty_to_oomir_type(&unit, &mut defs), Type::Unit);
    assert!(!defs.contains_key("Unit"));
    let closure = ty(
        TypeKind::Closure {
            class_name: "Closure".to_string(),
            captures: vec![field("0", u8_ty(), 0)],
            arguments: Vec::new(),
        },
        "closure",
        1,
    );
    assert_eq!(ty_to_oomir_type(&closure, &mut defs), Type::Class("Closure".to_string()));
    match defs.get("Closure") {
        Some(DataType::Class { fields, .. }) => {
            assert_eq!(fields[0], ("arg0".to_string(), Type::U8))
        }
        other => panic!("{other:?}"),
    }
}

#[test]
fn references_lower_by_what_they_point_to() {
    let mut defs: Definitions = NameMap::new();
    let pointer = |pointee: RustType, text: &str| {
        ty(TypeKind::Ref { pointee: Box::new(pointee), mutable: false }, text, 8)
    };
    assert_eq!(
        ty_to_oomir_type(&pointer(i32_ty(), "&i32"), &mut defs),
        Type::Pointer(Box::new(Type::I32))
    );
    let text = ty(TypeKind::Str, "str", 0);
    assert_eq!(ty_to_oomir_type(&pointer(text, "&str"), &mut defs), Type::Str);
    let array = ty(
        TypeKind::Array { element: Box::new(u8_ty()), length: Some(4) },
        "[u8; 4]",
        4,
    );
    assert_eq!(
        ty_to_oomir_type(&pointer(array, "&[u8; 4]"), &mut defs),
        Type::Slice(Box::new(Type::U8))
    );
}

#[test]
fn references_and_raw_pointers_share_a_representation() {
    let mut defs: Definitions = NameMap::new();
    let pointers = |pointee: fn() -> RustType| {
        [
            ty(TypeKind::Ref { pointee: Box::new(pointee()), mutable: false }, "&", 8),
            ty(TypeKind::Ref { pointee: Box::new(pointee()), mutable: true }, "&mut", 8),
            ty(TypeKind::RawPtr { pointee: Box::new(pointee()), mutable: false }, "*const", 8),
        ]
    };
    for pointee in [i32_ty as fn() -> RustType, point, || ty(TypeKind::Str, "str", 0)] {
        let [shared, exclusive, raw] = pointers(pointee);
        let expected = ty_to_oomir_type(&shared, &mut defs);
        assert_eq!(ty_to_oomir_type(&exclusive, &mut defs), expected);
        assert_eq!(ty_to_oomir_type(&raw, &mut defs), expected);
    }
    let array = || {
        ty(TypeKind::Array { element: Box::new(u8_ty()), length: Some(4) }, "[u8; 4]", 4)
    };
    let [shared, exclusive, raw] = pointers(array);
    assert_eq!(ty_to_oomir_type(&exclusive, &mut defs), ty_to_oomir_type(&shared, &mut defs));
    assert_ne!(ty_to_oomir_type(&raw, &mut defs), ty_to_oomir_type(&shared, &mut defs));
}

#[test]
fn only_types_of_this_crate_and_of_the_libraries_are_defined_here() {
    assert!(should_define_named_data_type(true, "game"));
    assert!(should_define_named_data_type(false, "core"));
    assert!(should_define_named_data_type(false, "alloc"));
    assert!(!should_define_named_data_type(false, "serde"));
}

#[test]
fn open_types_are_erased() {
    let mut defs: Definitions = NameMap::new();
    let mut open = ty(TypeKind::Other, "T", 0);
    open.is_open = true;
    assert!(has_open_jvm_abi_type(&open));
    assert!(!has_open_jvm_abi_type(&i32_ty()));
    assert_eq!(
        ty_to_erased_oomir_type(&open, &mut defs),
        Type::Class("java/lang/Object".to_string())
    );
    assert_eq!(ty_to_erased_oomir_type(&i32_ty(), &mut defs), Type::I32);
}

fn interface() -> CallInterface {
    CallInterface {
        local_name: "Fn_i32".to_string(),
        method: Signature {
            params: vec![("arg0".to_string(), Type::I32)],
            ret: Type::U8,
            is_static: false,
        },
    }
}

#[test]
fn function_pointers_have_the_signature_of_their_call() {
    let mut defs: Definitions = NameMap::new();
    let pointer = ty(
        TypeKind::FnPtr {
            inputs: vec![i32_ty(), u8_ty()],
            output: Box::new(u8_ty()),
            interface: interface(),
        },
        "fn(i32, u8) -> u8",
        8,
    );
    let signature = fn_ptr_signature_from_ty(&pointer, &mut defs);
    assert_eq!(signature.params.len(), 2);
    assert_eq!(signature.params[0].1, Type::I32);
    assert_eq!(signature.ret, Type::U8);
}

#[test]
fn callable_trait_objects_have_a_call_abi() {
    let mut defs: Definitions = NameMap::new();
    let dynamic = ty(
        TypeKind::Dynamic(DynamicType {
            callable: Some(CallShape {
                inputs: vec![i32_ty()],
                output: Box::new(u8_ty()),
                interface: interface(),
            }),
            bounds: Vec::new(),
            region_digest: None,
        }),
        "dyn Fn(i32) -> u8",
        0,
    );
    let abi = callable_trait_object_abi(&dynamic, &mut defs).unwrap();
    assert_eq!(abi.tuple_ty.len(), 1);
    assert_eq!(abi.tuple_ty[0].text, "i32");
    assert_eq!(abi.signature.params, vec![("arg0".to_string(), Type::I32)]);
    assert!(abi.signature.is_static);
    assert!(callable_trait_object_abi(&i32_ty(), &mut defs).is_none());
}

#[test]
fn exact_bytes_are_known_of_plain_types_only() {
    assert_eq!(exact_bytes_supported(&i32_ty()), Ok(()));
    assert_eq!(exact_bytes_supported(&point()), Ok(()));
    assert_eq!(exact_bytes_supported(&ty(TypeKind::Str, "str", 0)), Ok(()));
    assert!(exact_bytes_supported(&ty(TypeKind::Other, "T", 8)).is_err());
    let array = ty(
        TypeKind::Array { element: Box::new(u8_ty()), length: None },
        "[u8; N]",
        4,
    );
    assert_eq!(
        exact_bytes_supported(&array),
        Err("array length is not concrete for [u8; N]".to_string())
    );
}

#[test]
fn struct_pointers_are_encoded_through_a_codec_class() {
    let mut defs: Definitions = NameMap::new();
    let codec = ensure_pointer_memory_codec(&point(), &mut defs).unwrap();
    assert_eq!(codec, Some("codec/Point".to_string()));
    assert!(matches!(defs.get("codec/Point"), Some(DataType::Class { .. })));
    let before = defs.len();
    let again = ensure_pointer_memory_codec(&point(), &mut defs).unwrap();
    assert_eq!(again, Some("codec/Point".to_string()));
    assert_eq!(defs.len(), before);
}

#[test]
fn only_pointers_with_metadata_have_a_fat_codec() {
    let mut defs: Definitions = NameMap::new();
    assert_eq!(fat_pointer_codec_operand(&i32_ty(), &mut defs), None);
    let text = ty(TypeKind::Str, "str", 0);
    let reference = ty(TypeKind::Ref { pointee: Box::new(text), mutable: false }, "&str", 16);
    assert!(fat_pointer_codec_operand(&reference, &mut defs).is_some());
    assert_eq!(pointer_builtin_codec_operand(&point(), &mut defs), None);
}

#[test]
fn the_platform_refuses_what_it_does_not_offer() {
    let error = unsupported_err();
    assert_eq!(error.kind, ErrorKind::Unsupported);
    assert_eq!(error.message, "operation not supported on this platform");
    assert!(unsupported::<u8>().is_err());
}

#[test]
fn futex_timeouts_are_nanoseconds_or_unlimited() {
    assert_eq!(futex_timeout_nanos(None), -1);
    assert_eq!(futex_timeout_nanos(Some(0)), 0);
    assert_eq!(futex_timeout_nanos(Some(i64::MAX as u128)), i64::MAX);
    assert_eq!(futex_timeout_nanos(Some(i64::MAX as u128 + 1)), -1);
}

fn external(class_name: &str) -> RustType {
    let mut external = adt(Shape::Struct, class_name, vec![field("x", i32_ty(), 0)]);
    external.defined_here = false;
    ty(TypeKind::Adt(external), class_name, 4)
}

#[test]
fn external_types_in_the_arguments_of_closures_and_coroutines_are_defined() {
    let mut defs: Definitions = NameMap::new();
    let signature = ty(
        TypeKind::FnPtr {
            inputs: vec![external("other/Input")],
            output: Box::new(external("other/Output")),
            interface: interface(),
        },
        "fn(Input) -> Output",
        8,
    );
    let closure = ty(
        TypeKind::Closure {
            class_name: "Closure".to_string(),
            captures: vec![field("0", external("other/Captured"), 0)],
            arguments: vec![
                GenericArg::Region,
                GenericArg::Type(external("other/Parent")),
                GenericArg::Type(signature),
            ],
        },
        "closure",
        4,
    );
    let coroutine = ty(
        TypeKind::Coroutine(Coroutine {
            class_name: "Task".to_string(),
            captures: Vec::new(),
            arguments: vec![GenericArg::Type(external("other/Yielded"))],
            layout: Err("no layout".to_string()),
        }),
        "task",
        4,
    );
    force_define_external_mir_adts(&vec![closure, coroutine], &mut defs);
    for name in ["Captured", "Parent", "Input", "Output", "Yielded"] {
        assert!(defs.contains_key(&format!("other/{name}")), "{name}");
    }
}

/// A tuple that has to be dropped, or need not be.
fn part(class_name: &str, needs_drop: bool) -> RustType {
    let mut part = ty(
        TypeKind::Tuple {
            class_name: class_name.to_string(),
            elements: vec![field("0", i32_ty(), 0)],
        },
        class_name,
        4,
    );
    part.needs_drop = needs_drop;
    part
}

fn owner(has_destructor: bool) -> RustType {
    let mut owner = adt(
        Shape::Struct,
        "game/Owner",
        vec![field("a", part("game/Dropped", true), 0), field("b", part("game/Kept", false), 4)],
    );
    owner.has_destructor = has_destructor;
    let mut owner = ty(TypeKind::Adt(owner), "Owner", 8);
    owner.needs_drop = true;
    owner
}

#[test]
fn dropping_the_fields_of_a_standing_class_defines_their_types() {
    let mut defs: Definitions = NameMap::new();
    defs.insert(
        "game/Owner".to_string(),
        DataType::Class {
            fields: Vec::new(),
            is_abstract: false,
            methods: NameMap::new(),
            super_class: None,
            interfaces: Vec::new(),
        },
    );
    define_type(&owner(true), &mut defs);
    assert!(defs.contains_key("game/Dropped"));
    assert!(!defs.contains_key("game/Kept"));
    match defs.get("game/Owner") {
        Some(DataType::Class { methods, interfaces, .. }) => {
            for name in ["eq", "rustDrop", "_rust_drop_fields"] {
                assert!(methods.contains_key(name), "{name}");
            }
            assert!(matches!(
                methods.get("_rust_drop_fields"),
                Some(DataTypeMethod::Function(_))
            ));
            assert_eq!(interfaces.len(), 1);
        }
        other => panic!("{other:?}"),
    }
}

#[test]
fn drop_actions_define_the_type_and_the_parts_that_are_dropped() {
    let value = Operand::Variable {
        name: "_1".to_string(),
        ty: Type::Class("game/Owner".to_string()),
    };
    for (has_destructor, count) in [(false, 1), (true, 2)] {
        let mut defs: Definitions = NameMap::new();
        let mut lists: Vec<Vec<Instruction>> = Vec::new();
        managed_drop_actions(
            &owner(has_destructor),
            &value,
            &Vec::new(),
            "_drop",
            &mut defs,
            &mut lists,
        );
        assert_eq!(lists.len(), count);
        for name in ["game/Owner", "game/Dropped", "game/Kept"] {
            assert!(defs.contains_key(name), "{name}");
        }
    }
}
