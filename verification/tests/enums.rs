use jvm_lowering::classes::complete_variant;
use jvm_lowering::code::{Code, Definitions};
use jvm_lowering::comparisons::{create_class_equality, create_enum_equality, create_variant_test};
use jvm_lowering::enum_class::{
    adapt_simple_enum_operand, enum_from_union_discriminant_function, enum_union_discriminant_supported,
    simple_enum_union_size, ENUM_FROM_UNION_DISCRIMINANT_METHOD,
};
use jvm_lowering::jvm_ops::{JvmMethod, MethodBody, Op};
use jvm_lowering::lowering::{define_type, ensure_enum_data_types};
use jvm_lowering::name_map::NameMap;
use jvm_lowering::oomir::{Constant, DataType, DataTypeMethod, Instruction, Operand, Type};
use jvm_lowering::rust_type::{
    Adt, DiscriminantKind, Field, IntKind, Role, RustType, Shape, TypeKind, UintKind, Variant,
    VariantLayout, ZeroSized,
};

fn ty(kind: TypeKind, text: &str, size: usize) -> RustType {
    RustType {
        kind,
        text: text.to_string(),
        size: Ok(size),
        is_sized: true,
        is_open: false,
        needs_drop: false,
        codec_class: format!("codec/{text}"),
        zero_sized: ZeroSized::Unknown,
        drop_code: Vec::new(),
    }
}

fn variant(name: &str, discriminant: u128, fields: Vec<Field>) -> Variant {
    Variant { name: name.to_string(), discriminant, fields }
}

fn enum_of(class_name: &str, kind: DiscriminantKind, size: usize, variants: Vec<Variant>) -> Adt {
    Adt {
        shape: Shape::Enum,
        role: Role::Plain,
        class_name: class_name.to_string(),
        definition_class: class_name.to_string(),
        arguments: Vec::new(),
        defined_here: true,
        has_destructor: false,
        discriminants: kind,
        variants,
        layout: Ok(VariantLayout::Direct { offset: 0, size }),
        is_described: true,
    }
}

fn direction() -> Adt {
    enum_of(
        "game/Direction",
        DiscriminantKind::Int(IntKind::I8),
        1,
        vec![
            variant("North", 0, Vec::new()),
            variant("South", 1, Vec::new()),
            variant("Lost", u128::MAX, Vec::new()),
        ],
    )
}

/// The label to which the entry of a factory goes for a number.
fn target(function: &jvm_lowering::oomir::Function, value: i64) -> String {
    let entry = function.body.basic_blocks.get(&function.body.entry).unwrap();
    match &entry.instructions[0] {
        Instruction::Switch { targets, otherwise, .. } => targets
            .iter()
            .find(|(constant, _)| *constant == Constant::I64(value))
            .map(|(_, label)| label.clone())
            .unwrap_or_else(|| otherwise.clone()),
        other => panic!("{other:?}"),
    }
}

#[test]
fn a_factory_knows_signed_and_unsigned_discriminants() {
    let adt = direction();
    let function = enum_from_union_discriminant_function(&adt.variants, 1, "game/Direction");
    assert_eq!(function.name, ENUM_FROM_UNION_DISCRIMINANT_METHOD);
    assert_eq!(target(&function, 0), "variant_0");
    assert_eq!(target(&function, 1), "variant_1");
    assert_eq!(target(&function, 255), "variant_2");
    assert_eq!(target(&function, -1), "variant_2");
    assert_eq!(target(&function, 2), "invalid");
    assert_eq!(target(&function, -256), "invalid");
}

#[test]
fn a_factory_makes_the_class_of_the_variant() {
    let adt = direction();
    let function = enum_from_union_discriminant_function(&adt.variants, 1, "game/Direction");
    let block = function.body.basic_blocks.get("variant_2").unwrap();
    match &block.instructions[0] {
        Instruction::ConstructObject { class_name, args, .. } => {
            assert_eq!(class_name, "game/Direction$Lost");
            assert_eq!(args.len(), 0);
        }
        other => panic!("{other:?}"),
    }
    let invalid = function.body.basic_blocks.get("invalid").unwrap();
    match &invalid.instructions[0] {
        Instruction::ThrowNewWithMessage { exception_class, message } => {
            assert_eq!(exception_class, "java/lang/IllegalArgumentException");
            assert_eq!(
                message,
                "invalid discriminant while reading enum game/Direction from union storage"
            );
        }
        other => panic!("{other:?}"),
    }
}

#[test]
fn sixteen_and_thirty_two_bit_discriminants_have_both_readings() {
    let variants = vec![variant("A", 0x8000, Vec::new()), variant("B", 7, Vec::new())];
    let two = enum_from_union_discriminant_function(&variants, 2, "E");
    assert_eq!(target(&two, 0x8000), "variant_0");
    assert_eq!(target(&two, -0x8000), "variant_0");
    assert_eq!(target(&two, 7), "variant_1");
    let four = enum_from_union_discriminant_function(&variants, 4, "E");
    assert_eq!(target(&four, 0x8000), "variant_0");
    assert_eq!(target(&four, -0x8000), "invalid");
    let wide = vec![variant("A", 0xffff_ffff, Vec::new())];
    let four = enum_from_union_discriminant_function(&wide, 4, "E");
    assert_eq!(target(&four, 0xffff_ffff), "variant_0");
    assert_eq!(target(&four, -1), "variant_0");
}

#[test]
fn only_simple_enums_have_a_discriminant_of_their_own() {
    let simple = direction();
    assert!(enum_union_discriminant_supported(&simple));
    let with_field = enum_of(
        "E",
        DiscriminantKind::Int(IntKind::I8),
        1,
        vec![variant(
            "A",
            0,
            vec![Field {
                name: "0".to_string(),
                ty: ty(TypeKind::Uint(UintKind::U8), "u8", 1),
                offset: 1,
            }],
        )],
    );
    let carrier = ty(TypeKind::Bool, "E", 2);
    assert!(simple_enum_union_size(&with_field, &carrier).is_err());
    assert_eq!(simple_enum_union_size(&simple, &ty(TypeKind::Bool, "Direction", 1)), Ok(1));
    assert!(simple_enum_union_size(&simple, &ty(TypeKind::Bool, "Direction", 3)).is_err());
}

#[test]
fn an_enum_defines_a_class_for_itself_and_one_for_each_variant() {
    let mut defs: Definitions = NameMap::new();
    let adt = direction();
    let enum_ty = ty(TypeKind::Adt(direction()), "Direction", 1);
    ensure_enum_data_types(&enum_ty, &adt, &mut defs);
    for name in [
        "game/Direction",
        "game/Direction$North",
        "game/Direction$South",
        "game/Direction$Lost",
    ] {
        assert!(matches!(defs.get(name), Some(DataType::Class { .. })), "{name}");
    }
    match defs.get("game/Direction") {
        Some(DataType::Class { is_abstract, methods, super_class, .. }) => {
            assert!(*is_abstract);
            assert_eq!(*super_class, None);
            assert!(methods.contains_key("getVariantIdx"));
            assert!(methods.contains_key(ENUM_FROM_UNION_DISCRIMINANT_METHOD));
        }
        other => panic!("{other:?}"),
    }
    match defs.get("game/Direction$South") {
        Some(DataType::Class { super_class, methods, .. }) => {
            assert_eq!(super_class.as_deref(), Some("game/Direction"));
            assert!(matches!(
                methods.get("getVariantIdx"),
                Some(DataTypeMethod::SimpleConstantReturn(..))
            ));
        }
        other => panic!("{other:?}"),
    }
}

#[test]
fn defining_an_enum_twice_changes_nothing() {
    let mut defs: Definitions = NameMap::new();
    let enum_ty = ty(TypeKind::Adt(direction()), "Direction", 1);
    define_type(&enum_ty, &mut defs);
    let before = format!("{defs:?}");
    define_type(&enum_ty, &mut defs);
    assert_eq!(format!("{defs:?}"), before);
}

fn ops(method: &JvmMethod) -> &Vec<Op> {
    match &method.body {
        MethodBody::Ops { ops, .. } => ops,
        other => panic!("{other:?}"),
    }
}

#[test]
fn a_class_without_fields_is_always_equal() {
    let defs: Definitions = NameMap::new();
    let method = create_class_equality("eq", "Unit", &Vec::new(), &defs);
    assert_eq!(method.descriptor, "(LUnit;)Z");
    let ops = ops(&method);
    assert_eq!(ops.len(), 2);
    assert!(matches!(ops[0], Op::PushInt { value: 1 }));
    assert!(matches!(ops[1], Op::Return { .. }));
}

#[test]
fn a_different_field_is_answered_no() {
    let defs: Definitions = NameMap::new();
    let fields = vec![
        ("a".to_string(), Type::I32),
        ("b".to_string(), Type::I64),
        ("c".to_string(), Type::Unit),
        ("d".to_string(), Type::F64),
    ];
    let method = create_class_equality("eq", "Point", &fields, &defs);
    let ops = ops(&method);
    let targets: Vec<usize> = ops
        .iter()
        .filter_map(|op| match op {
            Op::Branch { target, .. } => Some(*target as usize),
            _ => None,
        })
        .collect();
    assert_eq!(targets, vec![ops.len() - 2; 3]);
    assert!(matches!(ops[ops.len() - 4], Op::PushInt { value: 1 }));
    assert!(matches!(ops[ops.len() - 2], Op::PushInt { value: 0 }));
}

#[test]
fn enums_are_compared_by_variant_and_by_fields() {
    let mut defs: Definitions = NameMap::new();
    defs.insert(
        "E$A".to_string(),
        DataType::Class {
            fields: Vec::new(),
            is_abstract: false,
            methods: NameMap::new(),
            super_class: None,
            interfaces: Vec::new(),
        },
    );
    let variants = vec![
        ("A".to_string(), vec![Type::I32, Type::Str]),
        ("B".to_string(), Vec::new()),
        ("C".to_string(), vec![Type::I32]),
    ];
    let method = create_enum_equality("eq", "E", &variants, &defs);
    let ops = ops(&method);
    for (index, op) in ops.iter().enumerate() {
        if let Op::Branch { target, .. } = op {
            assert!(index < *target as usize && (*target as usize) < ops.len());
        }
    }
    // One branch for the variants, one that skips the fields of `A`, and one for each of them.
    assert_eq!(ops.iter().filter(|op| matches!(op, Op::Branch { .. })).count(), 4);
}

#[test]
fn a_variant_test_compares_the_number_of_the_variant() {
    let method = create_variant_test("isNorth", "game/Direction", 3);
    let ops = ops(&method);
    assert_eq!(method.descriptor, "()Z");
    assert!(matches!(ops[2], Op::PushInt { value: 3 }));
    assert!(matches!(ops[3], Op::Branch { target: 6, .. }));
    assert!(matches!(ops[5], Op::Goto { target: 7 }));
    let large = create_variant_test("isFar", "E", 200);
    match &large.body {
        MethodBody::Ops { ops, .. } => assert!(matches!(ops[2], Op::PushInt { value: 200 })),
        other => panic!("{other:?}"),
    }
}

#[test]
fn completing_a_variant_keeps_the_methods_that_it_has() {
    let answer = |value: i32| {
        DataTypeMethod::SimpleConstantReturn(Type::I32, Some(Constant::I32(value)))
    };
    let mut defs: Definitions = NameMap::new();
    let mut first: NameMap<DataTypeMethod> = NameMap::new();
    first.insert("early".to_string(), answer(1));
    defs.insert(
        "demo/E$A".to_string(),
        DataType::Class {
            fields: Vec::new(),
            is_abstract: false,
            methods: first,
            super_class: None,
            interfaces: Vec::new(),
        },
    );
    let mut second: NameMap<DataTypeMethod> = NameMap::new();
    second.insert("late".to_string(), answer(2));
    let fields = vec![("field0".to_string(), Type::I32)];
    complete_variant("demo/E$A", "demo/E", fields, second, &mut defs);
    match defs.get("demo/E$A") {
        Some(DataType::Class { methods, .. }) => {
            for (name, value) in [("early", 1), ("late", 2)] {
                assert!(matches!(
                    methods.get(name),
                    Some(DataTypeMethod::SimpleConstantReturn(Type::I32, Some(Constant::I32(n))))
                        if *n == value
                ));
            }
        }
        other => panic!("{other:?}"),
    }
}

#[test]
fn a_number_is_turned_into_the_enum_that_it_stands_for() {
    let mut defs: Definitions = NameMap::new();
    let enum_ty = ty(TypeKind::Adt(direction()), "Direction", 1);
    define_type(&enum_ty, &mut defs);
    let target = Type::Class("game/Direction".to_string());
    let number = Operand::Constant(Constant::I8(1));
    let mut code = Code { instructions: Vec::new(), temps: 0 };
    let adapted = adapt_simple_enum_operand(&number, &target, "x", &defs, &mut code);
    assert_eq!(
        adapted,
        Operand::Variable { name: "x_enum_value".to_string(), ty: target }
    );
    assert_eq!(code.instructions.len(), 2);
    assert!(matches!(
        &code.instructions[1],
        Instruction::InvokeStatic { method_name, .. }
            if method_name == ENUM_FROM_UNION_DISCRIMINANT_METHOD
    ));
    let mut code = Code { instructions: Vec::new(), temps: 0 };
    let kept = adapt_simple_enum_operand(&number, &Type::I32, "x", &defs, &mut code);
    assert_eq!(kept, number);
    assert!(code.instructions.is_empty());
}
