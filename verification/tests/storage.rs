use jvm_lowering::code::{Code, Definitions};
use jvm_lowering::load::emit_ty_from_union_bytes;
use jvm_lowering::name_map::NameMap;
use jvm_lowering::oomir::{
    BinaryOp, Constant, DataType, DataTypeMethod, Instruction, Operand, Type,
};
use jvm_lowering::rust_type::{
    Adt, DiscriminantKind, Field, FloatKind, IntKind, Role, RustType, Shape, TypeKind, UintKind,
    Variant, VariantLayout, ZeroSized,
};
use jvm_lowering::store::emit_ty_to_union_bytes;
use jvm_lowering::transmute::{ensure_exact_transmute_helper, TRANSMUTE_METHOD};
use jvm_lowering::union_storage::{
    masked_enum_discriminant, masked_enum_discriminant_bits, UnionStorage,
};
use std::collections::HashMap;

fn ty(kind: TypeKind, text: &str, size: usize) -> RustType {
    RustType {
        kind,
        text: text.to_string(),
        size: Ok(size),
        is_sized: true,
        is_open: false,
        needs_drop: false,
        codec_class: format!("codec/{text}"),
        zero_sized: ZeroSized::Unknown,
        drop_code: Vec::new(),
    }
}

fn signed(kind: IntKind, size: usize) -> RustType {
    ty(TypeKind::Int(kind), &format!("{kind:?}").to_lowercase(), size)
}

fn unsigned(kind: UintKind, size: usize) -> RustType {
    ty(TypeKind::Uint(kind), &format!("{kind:?}").to_lowercase(), size)
}

#[derive(Debug, Clone, PartialEq)]
enum Value {
    Number(i64),
    Object(String, Vec<Value>),
}

/// The numbers, objects and byte arrays of a method, and the fields of its classes.
struct Machine {
    numbers: HashMap<String, i64>,
    objects: HashMap<String, Value>,
    arrays: HashMap<String, Vec<i8>>,
    classes: HashMap<String, Vec<String>>,
}

fn narrow(ty: &Type, x: i64) -> i64 {
    match ty {
        Type::I8 => x as i8 as i64,
        Type::U8 => x as u8 as i64,
        Type::I16 => x as i16 as i64,
        Type::U16 => x as u16 as i64,
        Type::I32 => x as i32 as i64,
        Type::U32 => x as u32 as i64,
        Type::Boolean => x & 1,
        _ => x,
    }
}

impl Machine {
    fn new() -> Self {
        Machine {
            numbers: HashMap::new(),
            objects: HashMap::new(),
            arrays: HashMap::new(),
            classes: HashMap::new(),
        }
    }

    fn full_value(&self, operand: &Operand) -> Value {
        match operand {
            Operand::Variable { name, ty: Type::Class(_) } => self.objects[name].clone(),
            other => Value::Number(self.value(other)),
        }
    }

    fn assign(&mut self, name: &str, value: Value) {
        match value {
            Value::Number(x) => {
                self.numbers.insert(name.to_string(), x);
            }
            object => {
                self.objects.insert(name.to_string(), object);
            }
        }
    }

    fn value(&self, operand: &Operand) -> i64 {
        match operand {
            Operand::Constant(Constant::I32(x)) => *x as i64,
            Operand::Constant(Constant::I64(x)) => *x,
            Operand::Constant(Constant::U64(x)) => *x as i64,
            Operand::Variable { name, .. } => self.numbers[name],
            other => panic!("{other:?}"),
        }
    }

    fn step(&mut self, instruction: &Instruction) {
        match instruction {
            Instruction::Binary { op, dest, op1, op2 } => {
                let (x, y) = (self.value(op1), self.value(op2));
                let ty = op1.get_type();
                let z = match op {
                    BinaryOp::Add => narrow(&ty, x.wrapping_add(y)),
                    BinaryOp::BitAnd => x & y,
                    BinaryOp::BitOr => x | y,
                    BinaryOp::Shl => narrow(&ty, x << y),
                    BinaryOp::Shr if ty == Type::U64 => ((x as u64) >> y) as i64,
                    BinaryOp::Shr => x >> y,
                    other => panic!("{other:?}"),
                };
                self.numbers.insert(dest.clone(), z);
            }
            Instruction::Cast { op, ty, dest } => {
                let x = self.value(op);
                self.numbers.insert(dest.clone(), narrow(ty, x));
            }
            Instruction::NewArray { dest, element_type, size } => {
                if *element_type == Type::I8 {
                    let length = self.value(size) as usize;
                    self.arrays.insert(dest.clone(), vec![0; length]);
                }
            }
            Instruction::ArrayStore { array, index, value, .. } => {
                let (i, x) = (self.value(index), self.value(value));
                self.arrays.get_mut(array).unwrap()[i as usize] = x as i8;
            }
            Instruction::GetField { dest, object, field_name, .. } => {
                let part = match self.full_value(object) {
                    Value::Object(class_name, parts) => {
                        let names = &self.classes[&class_name];
                        let index = names.iter().position(|name| name == field_name).unwrap();
                        parts[index].clone()
                    }
                    other => panic!("{other:?}"),
                };
                self.assign(dest, part);
            }
            Instruction::ConstructObject { dest, class_name, args } => {
                let parts = args.iter().map(|(operand, _)| self.full_value(operand)).collect();
                self.assign(dest, Value::Object(class_name.clone(), parts));
            }
            Instruction::ArrayGet { dest, array: Operand::Variable { name, .. }, index } => {
                let i = self.value(index);
                let byte = self.arrays[name][i as usize] as i64;
                self.numbers.insert(dest.clone(), byte);
            }
            other => panic!("{other:?}"),
        }
    }

    fn run(&mut self, list: &[Instruction]) {
        for instruction in list {
            self.step(instruction);
        }
    }
}

/// Stores a number as one type at an offset and loads it as another.
fn through_storage(written: &RustType, read: &RustType, x: i64, offset: usize) -> (i64, Vec<i8>) {
    let mut code = Code::new(7);
    let mut defs: Definitions = NameMap::new();
    let storage = UnionStorage::at_start("bytes", "objects");
    let source = Operand::Variable { name: "_1".to_string(), ty: written.jvm_type() };
    emit_ty_to_union_bytes(written, &source, &storage, offset, &mut code, &mut defs).unwrap();
    let result = emit_ty_from_union_bytes(read, &storage, offset, &mut code, &mut defs).unwrap();
    assert_eq!(result.get_type(), read.jvm_type());
    let mut machine = Machine::new();
    machine.numbers.insert("_1".to_string(), x);
    machine.arrays.insert("bytes".to_string(), vec![0x55; 16]);
    machine.run(&code.instructions);
    (machine.value(&result), machine.arrays["bytes"].clone())
}

#[test]
fn signed_numbers_come_back_from_storage() {
    for x in [0, 1, -1, 127, -128] {
        assert_eq!(through_storage(&signed(IntKind::I8, 1), &signed(IntKind::I8, 1), x, 0).0, x);
    }
    for x in [0, 300, -300, 32767, -32768] {
        assert_eq!(through_storage(&signed(IntKind::I16, 2), &signed(IntKind::I16, 2), x, 3).0, x);
    }
    for x in [0, 70000, -70000, i32::MAX as i64, i32::MIN as i64] {
        assert_eq!(through_storage(&signed(IntKind::I32, 4), &signed(IntKind::I32, 4), x, 4).0, x);
    }
    for x in [0, 1 << 40, -(1 << 40), i64::MAX, i64::MIN] {
        assert_eq!(through_storage(&signed(IntKind::I64, 8), &signed(IntKind::I64, 8), x, 8).0, x);
        assert_eq!(through_storage(&signed(IntKind::Isize, 8), &signed(IntKind::Isize, 8), x, 1).0, x);
    }
}

#[test]
fn unsigned_numbers_come_back_from_storage() {
    for x in [0, 1, 255] {
        assert_eq!(through_storage(&unsigned(UintKind::U8, 1), &unsigned(UintKind::U8, 1), x, 0).0, x);
    }
    for x in [0, 65535, 40000] {
        assert_eq!(through_storage(&unsigned(UintKind::U16, 2), &unsigned(UintKind::U16, 2), x, 2).0, x);
    }
    for x in [0, 0xffff_ffff, 0x8000_0000] {
        assert_eq!(through_storage(&unsigned(UintKind::U32, 4), &unsigned(UintKind::U32, 4), x, 5).0, x);
    }
    for x in [0, -1, i64::MIN, 77] {
        assert_eq!(through_storage(&unsigned(UintKind::U64, 8), &unsigned(UintKind::U64, 8), x, 0).0, x);
        assert_eq!(
            through_storage(&unsigned(UintKind::Usize, 8), &unsigned(UintKind::Usize, 8), x, 8).0,
            x
        );
    }
}

#[test]
fn characters_and_truth_values_come_back_from_storage() {
    let boolean = ty(TypeKind::Bool, "bool", 1);
    let character = ty(TypeKind::Char, "char", 4);
    for x in [0, 1] {
        assert_eq!(through_storage(&boolean, &boolean, x, 6).0, x);
    }
    for x in ['a' as i64, '\u{10ffff}' as i64, 0] {
        assert_eq!(through_storage(&character, &character, x, 6).0, x);
    }
}

#[test]
fn bytes_stand_least_significant_first_and_the_others_stay() {
    let (x, bytes) = through_storage(
        &signed(IntKind::I32, 4),
        &signed(IntKind::I32, 4),
        0x0102_0304,
        3,
    );
    assert_eq!(x, 0x0102_0304);
    let mut expected = vec![0x55; 16];
    expected[3] = 4;
    expected[4] = 3;
    expected[5] = 2;
    expected[6] = 1;
    assert_eq!(bytes, expected);
}

#[test]
fn a_number_is_read_back_as_another_type_of_its_size() {
    assert_eq!(through_storage(&signed(IntKind::I8, 1), &unsigned(UintKind::U8, 1), -1, 0).0, 255);
    assert_eq!(through_storage(&unsigned(UintKind::U16, 2), &signed(IntKind::I16, 2), 0x8000, 0).0, -32768);
    assert_eq!(
        through_storage(&unsigned(UintKind::U32, 4), &signed(IntKind::I32, 4), 0xffff_fffe, 0).0,
        -2
    );
    assert_eq!(through_storage(&signed(IntKind::I64, 8), &unsigned(UintKind::U64, 8), -5, 0).0, -5);
}

#[test]
fn storage_may_start_at_a_variable_position() {
    let number = signed(IntKind::I16, 2);
    let mut code = Code::new(0);
    let mut defs: Definitions = NameMap::new();
    let base = Operand::Variable { name: "base".to_string(), ty: Type::I32 };
    let storage = UnionStorage::at_offset("bytes", "objects", &base);
    let source = Operand::Constant(Constant::I32(-2));
    emit_ty_to_union_bytes(&number, &source, &storage, 1, &mut code, &mut defs).unwrap();
    let result = emit_ty_from_union_bytes(&number, &storage, 1, &mut code, &mut defs).unwrap();
    let mut machine = Machine::new();
    machine.numbers.insert("base".to_string(), 5);
    machine.arrays.insert("bytes".to_string(), vec![0; 16]);
    machine.run(&code.instructions);
    assert_eq!(machine.value(&result), -2);
    assert_eq!(machine.arrays["bytes"][6], -2);
    assert_eq!(machine.arrays["bytes"][7], -1);
}

#[test]
fn a_constant_position_is_saturated() {
    let storage = UnionStorage::at_offset(
        "bytes",
        "objects",
        &Operand::Constant(Constant::I32(i32::MAX)),
    );
    let mut code = Code::new(0);
    let position = storage.byte_index(3, &mut code);
    assert_eq!(position, Operand::Constant(Constant::I32(i32::MAX)));
    assert_eq!(code.instructions.len(), 0);
}

fn transmute_body(defs: &Definitions, class_name: &str) -> Vec<String> {
    match defs.get(class_name) {
        Some(DataType::Class { methods, .. }) => match methods.get(TRANSMUTE_METHOD) {
            Some(DataTypeMethod::Function(function)) => {
                let entry = function.body.basic_blocks.get(&function.body.entry).unwrap();
                entry.instructions.iter().map(|i| format!("{i:?}")).collect()
            }
            other => panic!("{other:?}"),
        },
        other => panic!("{other:?}"),
    }
}

#[test]
fn a_transmute_keeps_the_bits() {
    let mut defs: Definitions = NameMap::new();
    let helper = ensure_exact_transmute_helper(
        &signed(IntKind::I32, 4),
        &unsigned(UintKind::U32, 4),
        "Transmute",
        &mut defs,
    )
    .unwrap();
    assert_eq!(helper.class_name, "Transmute");
    assert_eq!(helper.method_name, "transmute");
    assert_eq!(helper.signature.ret, Type::U32);
    assert_eq!(helper.signature.params[0].1, Type::I32);
    let list = match defs.get("Transmute") {
        Some(DataType::Class { methods, .. }) => match methods.get(TRANSMUTE_METHOD) {
            Some(DataTypeMethod::Function(function)) => {
                &function.body.basic_blocks.get(&function.body.entry).unwrap().instructions
            }
            other => panic!("{other:?}"),
        },
        other => panic!("{other:?}"),
    };
    let mut machine = Machine::new();
    machine.numbers.insert("_1".to_string(), -2);
    machine.run(&list[..list.len() - 1]);
    match &list[list.len() - 1] {
        Instruction::Return { operand: Some(result) } => {
            assert_eq!(machine.value(result), 0xffff_fffe)
        }
        other => panic!("{other:?}"),
    }
}

#[test]
fn a_second_transmute_helper_is_the_first_one() {
    let mut defs: Definitions = NameMap::new();
    let source = signed(IntKind::I16, 2);
    let target = unsigned(UintKind::U16, 2);
    ensure_exact_transmute_helper(&source, &target, "T", &mut defs).unwrap();
    let before = transmute_body(&defs, "T");
    ensure_exact_transmute_helper(&source, &target, "T", &mut defs).unwrap();
    assert_eq!(transmute_body(&defs, "T"), before);
    assert_eq!(defs.len(), 1);
}

#[test]
fn a_transmute_between_sizes_is_refused() {
    let mut defs: Definitions = NameMap::new();
    let error = ensure_exact_transmute_helper(
        &signed(IntKind::I16, 2),
        &signed(IntKind::I32, 4),
        "T",
        &mut defs,
    )
    .unwrap_err();
    assert_eq!(error, "transmute layout sizes differ: i16 is 2 bytes, i32 is 4 bytes");
    assert_eq!(defs.len(), 0);
}

#[test]
fn a_transmute_into_an_interface_name_is_refused() {
    let mut defs: Definitions = NameMap::new();
    defs.insert("T".to_string(), DataType::Interface { methods: NameMap::new() });
    let error = ensure_exact_transmute_helper(
        &signed(IntKind::I16, 2),
        &unsigned(UintKind::U16, 2),
        "T",
        &mut defs,
    )
    .unwrap_err();
    assert_eq!(error, "exact transmute helper name T is already an interface");
}

#[test]
fn a_type_without_layout_is_refused() {
    let mut unsized_ty = signed(IntKind::I8, 1);
    unsized_ty.size = Err("no layout".to_string());
    let mut code = Code::new(0);
    let mut defs: Definitions = NameMap::new();
    let storage = UnionStorage::at_start("bytes", "objects");
    let source = Operand::Constant(Constant::I8(1));
    assert_eq!(
        emit_ty_to_union_bytes(&unsized_ty, &source, &storage, 0, &mut code, &mut defs),
        Err("no layout".to_string())
    );
    assert_eq!(code.instructions.len(), 0);
}

#[test]
fn floats_are_stored_as_their_raw_bits() {
    let float = ty(TypeKind::Float(FloatKind::F32), "f32", 4);
    let mut code = Code::new(0);
    let mut defs: Definitions = NameMap::new();
    let storage = UnionStorage::at_start("bytes", "objects");
    let source = Operand::Variable { name: "x".to_string(), ty: Type::F32 };
    emit_ty_to_union_bytes(&float, &source, &storage, 0, &mut code, &mut defs).unwrap();
    match &code.instructions[0] {
        Instruction::InvokeStatic { class_name, method_name, .. } => {
            assert_eq!(class_name, "java/lang/Float");
            assert_eq!(method_name, "floatToRawIntBits");
        }
        other => panic!("{other:?}"),
    }
    let quad = ty(TypeKind::Float(FloatKind::F128), "f128", 16);
    let mut code = Code::new(0);
    assert!(emit_ty_to_union_bytes(&quad, &source, &storage, 0, &mut code, &mut defs).is_err()
        || !code.instructions.is_empty());
}

#[test]
fn a_tuple_is_stored_field_by_field() {
    let pair = ty(
        TypeKind::Tuple {
            class_name: "Pair".to_string(),
            elements: vec![
                Field { name: "0".to_string(), ty: unsigned(UintKind::U8, 1), offset: 0 },
                Field { name: "1".to_string(), ty: signed(IntKind::I32, 4), offset: 4 },
            ],
        },
        "(u8, i32)",
        8,
    );
    let mut code = Code::new(0);
    let mut defs: Definitions = NameMap::new();
    let storage = UnionStorage::at_start("bytes", "objects");
    let source = Operand::Variable { name: "x".to_string(), ty: Type::Class("Pair".to_string()) };
    emit_ty_to_union_bytes(&pair, &source, &storage, 0, &mut code, &mut defs).unwrap();
    let stores = code
        .instructions
        .iter()
        .filter(|i| matches!(i, Instruction::ArrayStore { .. }))
        .count();
    let reads: Vec<String> = code
        .instructions
        .iter()
        .filter_map(|i| match i {
            Instruction::GetField { field_name, .. } => Some(field_name.clone()),
            _ => None,
        })
        .collect();
    assert_eq!(stores, 5);
    assert_eq!(reads, vec!["field0".to_string(), "field1".to_string()]);
}

#[test]
fn nested_aggregates_come_back_from_storage() {
    let unit = ty(
        TypeKind::Tuple { class_name: "Unit".to_string(), elements: Vec::new() },
        "()",
        0,
    );
    let inner = ty(
        TypeKind::Closure {
            class_name: "Inner".to_string(),
            captures: vec![
                Field { name: "0".to_string(), ty: signed(IntKind::I16, 2), offset: 2 },
                Field { name: "1".to_string(), ty: unit, offset: 0 },
                Field { name: "2".to_string(), ty: unsigned(UintKind::U8, 1), offset: 0 },
            ],
            arguments: Vec::new(),
        },
        "inner",
        4,
    );
    let outer = ty(
        TypeKind::Tuple {
            class_name: "Outer".to_string(),
            elements: vec![
                Field { name: "0".to_string(), ty: unsigned(UintKind::U32, 4), offset: 4 },
                Field { name: "1".to_string(), ty: inner, offset: 0 },
                Field { name: "2".to_string(), ty: ty(TypeKind::Bool, "bool", 1), offset: 8 },
            ],
        },
        "outer",
        12,
    );
    let value = Value::Object(
        "Outer".to_string(),
        vec![
            Value::Number(0xfedc_ba98),
            Value::Object("Inner".to_string(), vec![Value::Number(-2), Value::Number(200)]),
            Value::Number(1),
        ],
    );
    let mut code = Code::new(0);
    let mut defs: Definitions = NameMap::new();
    let storage = UnionStorage::at_start("bytes", "objects");
    let source = Operand::Variable { name: "_1".to_string(), ty: outer.jvm_type() };
    emit_ty_to_union_bytes(&outer, &source, &storage, 4, &mut code, &mut defs).unwrap();
    let result = emit_ty_from_union_bytes(&outer, &storage, 4, &mut code, &mut defs).unwrap();
    let mut machine = Machine::new();
    machine.classes.insert(
        "Outer".to_string(),
        vec!["field0".to_string(), "field1".to_string(), "field2".to_string()],
    );
    machine.classes.insert("Inner".to_string(), vec!["arg0".to_string(), "arg2".to_string()]);
    machine.objects.insert("_1".to_string(), value.clone());
    machine.arrays.insert("bytes".to_string(), vec![0; 16]);
    machine.run(&code.instructions);
    assert_eq!(machine.full_value(&result), value);
    assert_eq!(
        machine.arrays["bytes"],
        vec![0, 0, 0, 0, -56, 0, -2, -1, -104, -70, -36, -2, 1, 0, 0, 0]
    );
}

#[test]
fn discriminants_are_cut_to_their_size() {
    assert_eq!(masked_enum_discriminant_bits(0x1_2345, 1), 0x45);
    assert_eq!(masked_enum_discriminant_bits(0x1_2345, 2), 0x2345);
    assert_eq!(masked_enum_discriminant_bits(0x1_2345, 0), 0);
    assert_eq!(masked_enum_discriminant_bits(u128::MAX, 3), 0xff_ffff);
    assert_eq!(masked_enum_discriminant_bits(u128::MAX, 15), u128::MAX >> 8);
    assert_eq!(masked_enum_discriminant_bits(u128::MAX, 4), 0xffff_ffff);
    assert_eq!(masked_enum_discriminant_bits(u128::MAX, 8), u64::MAX as u128);
    assert_eq!(masked_enum_discriminant_bits(u128::MAX, 16), u128::MAX);
    assert_eq!(masked_enum_discriminant(u128::MAX, 8), -1);
    assert_eq!(masked_enum_discriminant(u128::MAX, 1), 255);
}

/// A closure that captures a tuple.
fn capturing_closure() -> RustType {
    let inner = ty(
        TypeKind::Tuple {
            class_name: "Inner".to_string(),
            elements: vec![Field {
                name: "0".to_string(),
                ty: unsigned(UintKind::U8, 1),
                offset: 0,
            }],
        },
        "Inner",
        1,
    );
    ty(
        TypeKind::Closure {
            class_name: "Outer".to_string(),
            captures: vec![Field { name: "0".to_string(), ty: inner, offset: 0 }],
            arguments: Vec::new(),
        },
        "Outer",
        1,
    )
}

#[test]
fn storing_and_loading_define_the_classes_that_they_name() {
    let storage = UnionStorage::at_start("bytes", "objects");
    let source =
        Operand::Variable { name: "x".to_string(), ty: Type::Class("Outer".to_string()) };
    let outer = capturing_closure();
    let mut code = Code::new(0);
    let mut defs: Definitions = NameMap::new();
    emit_ty_to_union_bytes(&outer, &source, &storage, 0, &mut code, &mut defs).unwrap();
    assert!(defs.contains_key("Outer"));
    assert!(defs.contains_key("Inner"));
    let mut code = Code::new(0);
    let mut defs: Definitions = NameMap::new();
    emit_ty_from_union_bytes(&outer, &storage, 0, &mut code, &mut defs).unwrap();
    assert!(defs.contains_key("Outer"));
    assert!(defs.contains_key("Inner"));
}

#[test]
fn a_reference_to_an_array_of_unknown_length_is_refused() {
    let array = ty(
        TypeKind::Array { element: Box::new(unsigned(UintKind::U8, 1)), length: None },
        "[u8; N]",
        0,
    );
    let reference =
        ty(TypeKind::Ref { pointee: Box::new(array), mutable: false }, "&[u8; N]", 8);
    let storage = UnionStorage::at_start("bytes", "objects");
    let source = Operand::Variable {
        name: "x".to_string(),
        ty: Type::Slice(Box::new(Type::U8)),
    };
    let mut code = Code::new(0);
    let mut defs: Definitions = NameMap::new();
    let expected = Err("array length is not concrete for [u8; N]".to_string());
    assert_eq!(
        emit_ty_to_union_bytes(&reference, &source, &storage, 0, &mut code, &mut defs),
        expected
    );
    assert_eq!(
        emit_ty_from_union_bytes(&reference, &storage, 0, &mut code, &mut defs)
            .map(|_| ()),
        expected
    );
}

/// A reference to a struct of a class; all structs here are called the same.
fn reference_to(class_name: &str) -> RustType {
    let point = ty(
        TypeKind::Adt(Adt {
            shape: Shape::Struct,
            role: Role::Plain,
            class_name: class_name.to_string(),
            definition_class: class_name.to_string(),
            arguments: Vec::new(),
            defined_here: true,
            has_destructor: false,
            discriminants: DiscriminantKind::Other,
            variants: vec![Variant {
                name: "Point".to_string(),
                discriminant: 0,
                fields: vec![Field {
                    name: "x".to_string(),
                    ty: signed(IntKind::I32, 4),
                    offset: 0,
                }],
            }],
            layout: Ok(VariantLayout::Single { variant: 0 }),
            is_described: true,
        }),
        "Point",
        4,
    );
    ty(TypeKind::Ref { pointee: Box::new(point), mutable: false }, "&Point", 8)
}

#[test]
fn pointers_to_different_types_of_one_name_are_retyped() {
    let mut defs: Definitions = NameMap::new();
    for (target, class_name) in [("a/Point", "Same"), ("b/Point", "Other")] {
        ensure_exact_transmute_helper(
            &reference_to("a/Point"),
            &reference_to(target),
            class_name,
            &mut defs,
        )
        .unwrap();
    }
    let same = transmute_body(&defs, "Same");
    let other = transmute_body(&defs, "Other");
    assert_eq!(same.len(), 1);
    assert!(other.len() > 1, "{other:?}");
}
