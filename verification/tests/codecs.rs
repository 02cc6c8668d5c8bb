use jvm_lowering::code::Definitions;
use jvm_lowering::lowering::define_type;
use jvm_lowering::name_map::NameMap;
use jvm_lowering::oomir::{
    BinaryOp, CompareOp, Constant, DataType, DataTypeMethod, Function, Instruction, Operand, Type,
};
use jvm_lowering::pointer_codec::ensure_pointer_memory_codec;
use jvm_lowering::rust_type::{
    Adt, Coroutine, CoroutineLayout, CoroutineState, DiscriminantKind, Field, FloatKind, IntKind,
    Role, RustType, SavedPlace, Shape, StatePlace, TypeKind, UintKind, Variant, VariantLayout, ZeroSized,
};
use jvm_lowering::transmute::{ensure_exact_transmute_helper, pointer_memory_codec_operand};
use jvm_lowering::union_storage::U128_CLASS;
use std::collections::HashMap;

fn ty(kind: TypeKind, text: &str, size: usize) -> RustType {
    RustType {
        kind,
        text: text.to_string(),
        size: Ok(size),
        is_sized: true,
        is_open: false,
        needs_drop: false,
        codec_class: format!("codec/{text}"),
        zero_sized: ZeroSized::Unknown,
        drop_code: Vec::new(),
    }
}

fn signed(kind: IntKind, size: usize) -> RustType {
    ty(TypeKind::Int(kind), &format!("{kind:?}").to_lowercase(), size)
}

fn unsigned(kind: UintKind, size: usize) -> RustType {
    ty(TypeKind::Uint(kind), &format!("{kind:?}").to_lowercase(), size)
}

fn field(name: &str, ty: RustType, offset: usize) -> Field {
    Field { name: name.to_string(), ty, offset }
}

fn variant(name: &str, discriminant: u128, fields: Vec<Field>) -> Variant {
    Variant { name: name.to_string(), discriminant, fields }
}

fn adt(shape: Shape, class_name: &str, variants: Vec<Variant>, layout: VariantLayout) -> Adt {
    Adt {
        shape,
        role: Role::Plain,
        class_name: class_name.to_string(),
        definition_class: class_name.to_string(),
        arguments: Vec::new(),
        defined_here: true,
        has_destructor: false,
        discriminants: DiscriminantKind::Uint(UintKind::U8),
        variants,
        layout: Ok(layout),
        is_described: true,
    }
}

/// A byte, a half of another struct with two numbers, and a number at the end.
fn nested_struct() -> RustType {
    let inner = ty(
        TypeKind::Adt(adt(
            Shape::Struct,
            "demo/Inner",
            vec![variant(
                "Inner",
                0,
                vec![
                    field("low", signed(IntKind::I16, 2), 0),
                    field("high", unsigned(UintKind::U16, 2), 2),
                ],
            )],
            VariantLayout::Single { variant: 0 },
        )),
        "Inner",
        4,
    );
    ty(
        TypeKind::Adt(adt(
            Shape::Struct,
            "demo/Outer",
            vec![variant(
                "Outer",
                0,
                vec![
                    field("flag", ty(TypeKind::Bool, "bool", 1), 12),
                    field("inner", inner, 8),
                    field("number", signed(IntKind::I64, 8), 0),
                ],
            )],
            VariantLayout::Single { variant: 0 },
        )),
        "Outer",
        16,
    )
}

#[derive(Debug, Clone, PartialEq)]
enum Value {
    Number(i64),
    Bytes(usize),
    Objects,
    Object(String, Vec<Value>),
    Null,
}

fn narrow(ty: &Type, x: i64) -> i64 {
    match ty {
        Type::I8 => x as i8 as i64,
        Type::U8 => x as u8 as i64,
        Type::I16 => x as i16 as i64,
        Type::U16 => x as u16 as i64,
        Type::I32 => x as i32 as i64,
        Type::U32 => x as u32 as i64,
        Type::Boolean => x & 1,
        _ => x,
    }
}

/// Runs methods of defined classes; byte arrays are shared by all that refer to them.
struct Runner<'a> {
    defs: &'a Definitions,
    heap: Vec<Vec<i8>>,
}

impl<'a> Runner<'a> {
    fn new(defs: &'a Definitions) -> Self {
        Runner { defs, heap: Vec::new() }
    }

    fn fields(&self, class_name: &str) -> Vec<String> {
        match self.defs.get(class_name) {
            Some(DataType::Class { fields, .. }) => {
                fields.iter().map(|(name, _)| name.clone()).collect()
            }
            other => panic!("{class_name}: {other:?}"),
        }
    }

    fn method(&self, class_name: &str, name: &str) -> &'a Function {
        match self.defs.get(class_name) {
            Some(DataType::Class { methods, super_class, .. }) => match methods.get(name) {
                Some(DataTypeMethod::Function(function)) => function,
                _ => match super_class {
                    Some(parent) => self.method(parent, name),
                    None => panic!("{class_name} has no {name}"),
                },
            },
            other => panic!("{class_name}: {other:?}"),
        }
    }

    fn value(locals: &HashMap<String, Value>, operand: &Operand) -> Value {
        match operand {
            Operand::Constant(Constant::I8(x)) => Value::Number(*x as i64),
            Operand::Constant(Constant::Boolean(x)) => Value::Number(*x as i64),
            Operand::Constant(Constant::I32(x)) => Value::Number(*x as i64),
            Operand::Constant(Constant::I64(x)) => Value::Number(*x),
            Operand::Constant(Constant::U64(x)) => Value::Number(*x as i64),
            Operand::Constant(Constant::Null(_)) => Value::Null,
            Operand::Variable { name, .. } => match locals.get(name) {
                Some(value) => value.clone(),
                None => panic!("{name} is not set"),
            },
            other => panic!("{other:?}"),
        }
    }

    fn number(locals: &HashMap<String, Value>, operand: &Operand) -> i64 {
        match Self::value(locals, operand) {
            Value::Number(x) => x,
            other => panic!("{other:?}"),
        }
    }

    fn call(&mut self, class_name: &str, name: &str, args: Vec<Value>) -> Option<Value> {
        if class_name == "org/rustlang/runtime/Pointer" && name == "emptyUnionObjectStorage" {
            return Some(Value::Objects);
        }
        if class_name == "org/rustlang/runtime/Pointer" && name == "u128FromBytes" {
            return match &args[..] {
                [Value::Bytes(place), Value::Number(at), Value::Number(16), Value::Number(0)] => {
                    let at = *at as usize;
                    let part = |from: usize| {
                        (0..8).rev().fold(0i64, |x, i| {
                            (x << 8) | (self.heap[*place][at + from + i] as u8 as i64)
                        })
                    };
                    let parts = vec![Value::Number(part(8)), Value::Number(part(0))];
                    Some(Value::Object(U128_CLASS.to_string(), parts))
                }
                other => panic!("{other:?}"),
            };
        }
        match (class_name, name) {
            ("java/lang/Float", "floatToRawIntBits") | ("java/lang/Double", "doubleToRawLongBits") => {
                return args.into_iter().next();
            }
            ("java/lang/Float", "intBitsToFloat") | ("java/lang/Double", "longBitsToDouble") => {
                return args.into_iter().next();
            }
            _ => {}
        }
        let function = self.method(class_name, name);
        let mut locals = HashMap::new();
        for (i, arg) in args.into_iter().enumerate() {
            locals.insert(format!("_{}", i + 1), arg);
        }
        let mut label = function.body.entry.clone();
        loop {
            let block = function.body.basic_blocks.get(&label).unwrap();
            let mut next = None;
            for instruction in &block.instructions {
                match instruction {
                    Instruction::Return { operand } => {
                        return operand.as_ref().map(|operand| Self::value(&locals, operand));
                    }
                    Instruction::Jump { target } => next = Some(target.clone()),
                    Instruction::Branch { condition, true_block, false_block } => {
                        next = Some(if Self::number(&locals, condition) != 0 {
                            true_block.clone()
                        } else {
                            false_block.clone()
                        });
                    }
                    Instruction::Switch { discr, targets, otherwise } => {
                        let x = Self::number(&locals, discr);
                        next = Some(
                            targets
                                .iter()
                                .find(|(constant, _)| {
                                    *constant == Constant::I64(x)
                                        || *constant == Constant::I32(x as i32)
                                })
                                .map(|(_, label)| label.clone())
                                .unwrap_or_else(|| otherwise.clone()),
                        );
                    }
                    other => self.step(&mut locals, other),
                }
            }
            label = next.unwrap();
        }
    }

    fn step(&mut self, locals: &mut HashMap<String, Value>, instruction: &Instruction) {
        match instruction {
            Instruction::Binary { op, dest, op1, op2 } => {
                let (x, y) = (Self::number(locals, op1), Self::number(locals, op2));
                let ty = op1.get_type();
                let z = match op {
                    BinaryOp::Add => narrow(&ty, x.wrapping_add(y)),
                    BinaryOp::BitAnd => x & y,
                    BinaryOp::BitOr => x | y,
                    BinaryOp::Shl => narrow(&ty, x << y),
                    BinaryOp::Shr if ty == Type::U64 => ((x as u64) >> y) as i64,
                    BinaryOp::Shr => x >> y,
                    other => panic!("{other:?}"),
                };
                locals.insert(dest.clone(), Value::Number(z));
            }
            Instruction::Compare { op: CompareOp::Eq, dest, op1, op2 } => {
                let same = Self::value(locals, op1) == Self::value(locals, op2);
                locals.insert(dest.clone(), Value::Number(same as i64));
            }
            Instruction::Cast { op, ty, dest } => {
                let x = Self::number(locals, op);
                locals.insert(dest.clone(), Value::Number(narrow(ty, x)));
            }
            Instruction::Move { dest, src } => {
                let value = Self::value(locals, src);
                locals.insert(dest.clone(), value);
            }
            Instruction::NewArray { dest, element_type, size } => {
                let array = if *element_type == Type::I8 {
                    self.heap.push(vec![0; Self::number(locals, size) as usize]);
                    Value::Bytes(self.heap.len() - 1)
                } else {
                    Value::Objects
                };
                locals.insert(dest.clone(), array);
            }
            Instruction::ArrayStore { array, index, value, .. } => {
                let (i, x) = (Self::number(locals, index), Self::number(locals, value));
                match locals[array] {
                    Value::Bytes(place) => self.heap[place][i as usize] = x as i8,
                    ref other => panic!("{other:?}"),
                }
            }
            Instruction::ArrayGet { dest, array, index } => {
                let i = Self::number(locals, index);
                let byte = match Self::value(locals, array) {
                    Value::Bytes(place) => self.heap[place][i as usize],
                    other => panic!("{other:?}"),
                };
                locals.insert(dest.clone(), Value::Number(byte as i64));
            }
            Instruction::GetField { dest, object, field_name, .. } => {
                let part = match Self::value(locals, object) {
                    Value::Object(class_name, parts) => {
                        let names = self.fields(&class_name);
                        parts[names.iter().position(|name| name == field_name).unwrap()].clone()
                    }
                    other => panic!("{other:?}"),
                };
                locals.insert(dest.clone(), part);
            }
            Instruction::ConstructObject { dest, class_name, args } => {
                let parts = args.iter().map(|(operand, _)| Self::value(locals, operand)).collect();
                locals.insert(dest.clone(), Value::Object(class_name.clone(), parts));
            }
            Instruction::InvokeStatic { dest, class_name, method_name, args, .. } => {
                let args = args.iter().map(|operand| Self::value(locals, operand)).collect();
                let result = self.call(class_name, method_name, args);
                if let Some(dest) = dest {
                    locals.insert(dest.clone(), result.unwrap());
                }
            }
            Instruction::InvokeVirtual { dest, method_name, args, operand, .. } => {
                let receiver = Self::value(locals, operand);
                let class_name = match &receiver {
                    Value::Object(class_name, _) => class_name.clone(),
                    other => panic!("{other:?}"),
                };
                let mut all = vec![receiver];
                all.extend(args.iter().map(|operand| Self::value(locals, operand)));
                let result = self.call(&class_name, method_name, all);
                if let Some(dest) = dest {
                    locals.insert(dest.clone(), result.unwrap());
                }
            }
            other => panic!("{other:?}"),
        }
    }

    fn bytes(&self, value: &Value) -> Vec<i8> {
        match value {
            Value::Bytes(place) => self.heap[*place].clone(),
            other => panic!("{other:?}"),
        }
    }
}

fn object(class_name: &str, parts: Vec<Value>) -> Value {
    Value::Object(class_name.to_string(), parts)
}

#[test]
fn a_codec_of_a_nested_struct_decodes_what_it_encoded() {
    let outer = nested_struct();
    let mut defs: Definitions = NameMap::new();
    define_type(&outer, &mut defs);
    let class_name = ensure_pointer_memory_codec(&outer, &mut defs).unwrap().unwrap();
    assert_eq!(class_name, "codec/Outer");
    let value = object(
        "demo/Outer",
        vec![
            Value::Number(1),
            object("demo/Inner", vec![Value::Number(-2), Value::Number(0xfedc)]),
            Value::Number(0x0102_0304_0506_0708),
        ],
    );
    let mut runner = Runner::new(&defs);
    let encoded = runner.call(&class_name, "encode", vec![value.clone()]).unwrap();
    assert_eq!(
        runner.bytes(&encoded),
        vec![8, 7, 6, 5, 4, 3, 2, 1, -2, -1, 0xdcu8 as i8, 0xfeu8 as i8, 1, 0, 0, 0]
    );
    assert_eq!(runner.call(&class_name, "decode", vec![encoded]), Some(value));
}

#[test]
fn each_part_of_a_codec_has_helpers_of_its_own() {
    let outer = nested_struct();
    let mut defs: Definitions = NameMap::new();
    define_type(&outer, &mut defs);
    let class_name = ensure_pointer_memory_codec(&outer, &mut defs).unwrap().unwrap();
    match defs.get(&class_name) {
        Some(DataType::Class { methods, .. }) => {
            for name in [
                "encode",
                "decode",
                "bind",
                "_encodeField0",
                "_encodeField1",
                "_encodeField1Field0",
                "_encodeField1Field1",
                "_encodeField2",
                "_decodeField0",
                "_decodeField1",
                "_decodeField1Field0",
                "_decodeField1Field1",
                "_decodeField2",
            ] {
                assert!(methods.get(name).is_some(), "{name}");
            }
            assert!(methods.get("_encodeField0Field0").is_none());
        }
        other => panic!("{other:?}"),
    }
}

#[test]
fn asking_for_a_codec_defines_the_type() {
    let outer = nested_struct();
    let mut defs: Definitions = NameMap::new();
    let operand = pointer_memory_codec_operand(&outer, &mut defs);
    assert_eq!(operand, Operand::Constant(Constant::String("codec/Outer".to_string())));
    assert!(defs.get("demo/Outer").is_some());
    assert!(defs.get("demo/Inner").is_some());
}

/// A struct of another crate that holds a pair.
fn outside_struct() -> RustType {
    let pair = ty(
        TypeKind::Tuple {
            class_name: "demo/Pair".to_string(),
            elements: vec![
                field("0", unsigned(UintKind::U8, 1), 4),
                field("1", unsigned(UintKind::U32, 4), 0),
            ],
        },
        "Pair",
        8,
    );
    let mut outside = adt(
        Shape::Struct,
        "other/Outside",
        vec![variant("Outside", 0, vec![field("pair", pair, 0)])],
        VariantLayout::Single { variant: 0 },
    );
    outside.defined_here = false;
    ty(TypeKind::Adt(outside), "Outside", 8)
}

#[test]
fn a_codec_defines_what_structs_of_other_crates_hold() {
    let outside = outside_struct();
    let mut defs: Definitions = NameMap::new();
    define_type(&outside, &mut defs);
    assert!(defs.get("demo/Pair").is_none());
    let class_name = ensure_pointer_memory_codec(&outside, &mut defs).unwrap().unwrap();
    assert!(defs.get("demo/Pair").is_some());
    assert!(defs.get("other/Outside").is_none());
    let mut made_here = outside_struct();
    if let TypeKind::Adt(adt) = &mut made_here.kind {
        adt.defined_here = true;
    }
    define_type(&made_here, &mut defs);
    let mut runner = Runner::new(&defs);
    let value = object(
        "other/Outside",
        vec![object("demo/Pair", vec![Value::Number(200), Value::Number(0x0102_0304)])],
    );
    let encoded = runner.call(&class_name, "encode", vec![value.clone()]).unwrap();
    assert_eq!(runner.bytes(&encoded)[..5], [4, 3, 2, 1, -56]);
    assert_eq!(runner.call(&class_name, "decode", vec![encoded]), Some(value));
}

#[test]
fn a_union_defines_the_enums_of_other_crates_that_it_holds() {
    let mut shape = tagged_enum();
    if let TypeKind::Adt(adt) = &mut shape.kind {
        adt.defined_here = false;
    }
    let mut defs: Definitions = NameMap::new();
    define_type(&shape, &mut defs);
    assert!(defs.get("demo/Shape").is_none());
    let union = ty(
        TypeKind::Adt(adt(
            Shape::Union,
            "demo/Any",
            vec![variant("Any", 0, vec![field("shape", shape, 0)])],
            VariantLayout::Single { variant: 0 },
        )),
        "Any",
        8,
    );
    define_type(&union, &mut defs);
    assert!(defs.get("demo/Shape").is_some());
    let mut runner = Runner::new(&defs);
    let line = object("demo/Shape$Line", vec![Value::Number(-5)]);
    let made = runner.call("demo/Any", "from_shape", vec![line.clone()]).unwrap();
    assert_eq!(runner.call("demo/Any", "get_shape", vec![made]), Some(line));
}

fn number_union() -> RustType {
    ty(
        TypeKind::Adt(adt(
            Shape::Union,
            "demo/Bits",
            vec![variant(
                "Bits",
                0,
                vec![
                    field("word", unsigned(UintKind::U32, 4), 0),
                    field("byte", signed(IntKind::I8, 1), 0),
                    field("outer", nested_struct(), 0),
                ],
            )],
            VariantLayout::Single { variant: 0 },
        )),
        "Bits",
        16,
    )
}

#[test]
fn a_field_of_a_union_reads_what_was_written_to_it() {
    let bits = number_union();
    let mut defs: Definitions = NameMap::new();
    define_type(&bits, &mut defs);
    let mut runner = Runner::new(&defs);
    let made = runner.call("demo/Bits", "from_word", vec![Value::Number(0x8081_8283)]).unwrap();
    assert_eq!(
        runner.call("demo/Bits", "get_word", vec![made.clone()]),
        Some(Value::Number(0x8081_8283))
    );
    assert_eq!(runner.call("demo/Bits", "get_byte", vec![made.clone()]), Some(Value::Number(-125)));
    let value = object(
        "demo/Outer",
        vec![
            Value::Number(0),
            object("demo/Inner", vec![Value::Number(7), Value::Number(9)]),
            Value::Number(-1),
        ],
    );
    runner.call("demo/Bits", "set_outer", vec![made.clone(), value.clone()]);
    assert_eq!(runner.call("demo/Bits", "get_outer", vec![made.clone()]), Some(value));
    assert_eq!(
        runner.call("demo/Bits", "get_word", vec![made.clone()]),
        Some(Value::Number(0xffff_ffff))
    );
    runner.call("demo/Bits", "set_byte", vec![made.clone(), Value::Number(5)]);
    assert_eq!(
        runner.call("demo/Bits", "get_word", vec![made.clone()]),
        Some(Value::Number(0xffff_ff05))
    );
}

/// An enum with a tag of its own, and one whose tag is a niche of a truth value.
fn tagged_enum() -> RustType {
    ty(
        TypeKind::Adt(adt(
            Shape::Enum,
            "demo/Shape",
            vec![
                variant("Empty", 3, Vec::new()),
                variant("Line", 200, vec![field("0", signed(IntKind::I32, 4), 4)]),
                variant(
                    "Box",
                    7,
                    vec![
                        field("0", unsigned(UintKind::U16, 2), 2),
                        field("1", unsigned(UintKind::U32, 4), 4),
                    ],
                ),
            ],
            VariantLayout::Direct { offset: 0, size: 1 },
        )),
        "Shape",
        8,
    )
}

fn niche_enum() -> RustType {
    ty(
        TypeKind::Adt(adt(
            Shape::Enum,
            "demo/Maybe",
            vec![
                variant("None", 0, Vec::new()),
                variant("Some", 1, vec![field("0", ty(TypeKind::Bool, "bool", 1), 0)]),
                variant("Never", 2, Vec::new()),
            ],
            VariantLayout::Niche {
                offset: 0,
                size: 1,
                untagged_variant: 1,
                niche_start_variant: 0,
                niche_end_variant: 2,
                niche_start: 2,
            },
        )),
        "Maybe",
        1,
    )
}

#[test]
fn a_codec_of_an_enum_decodes_the_variant_that_it_encoded() {
    let shape = tagged_enum();
    let mut defs: Definitions = NameMap::new();
    define_type(&shape, &mut defs);
    let class_name = ensure_pointer_memory_codec(&shape, &mut defs).unwrap().unwrap();
    let mut runner = Runner::new(&defs);
    let values = [
        object("demo/Shape$Empty", Vec::new()),
        object("demo/Shape$Line", vec![Value::Number(-70000)]),
        object("demo/Shape$Box", vec![Value::Number(65535), Value::Number(0x8000_0000)]),
    ];
    let tags = [3, 200u8 as i8, 7];
    for (value, tag) in values.into_iter().zip(tags) {
        let encoded = runner.call(&class_name, "encode", vec![value.clone()]).unwrap();
        assert_eq!(runner.bytes(&encoded)[0], tag);
        assert_eq!(runner.call(&class_name, "decode", vec![encoded]), Some(value));
    }
}

#[test]
fn a_codec_of_an_enum_uses_values_that_its_payload_does_not_have() {
    let maybe = niche_enum();
    let mut defs: Definitions = NameMap::new();
    define_type(&maybe, &mut defs);
    let class_name = ensure_pointer_memory_codec(&maybe, &mut defs).unwrap().unwrap();
    let mut runner = Runner::new(&defs);
    let values = [
        (object("demo/Maybe$None", Vec::new()), 2),
        (object("demo/Maybe$Some", vec![Value::Number(0)]), 0),
        (object("demo/Maybe$Some", vec![Value::Number(1)]), 1),
        (object("demo/Maybe$Never", Vec::new()), 4),
    ];
    for (value, byte) in values {
        let encoded = runner.call(&class_name, "encode", vec![value.clone()]).unwrap();
        assert_eq!(runner.bytes(&encoded), vec![byte]);
        assert_eq!(runner.call(&class_name, "decode", vec![encoded]), Some(value));
    }
}

#[test]
fn a_conversion_of_an_aggregate_keeps_its_bytes() {
    let inner = match nested_struct().kind {
        TypeKind::Adt(outer) => outer.variants.into_iter().next().unwrap().fields.remove(1).ty,
        other => panic!("{other:?}"),
    };
    let mut defs: Definitions = NameMap::new();
    let helper = ensure_exact_transmute_helper(
        &inner,
        &unsigned(UintKind::U32, 4),
        "demo/InnerToWord",
        &mut defs,
    )
    .unwrap();
    let back = ensure_exact_transmute_helper(
        &unsigned(UintKind::U32, 4),
        &inner,
        "demo/WordToInner",
        &mut defs,
    )
    .unwrap();
    let mut runner = Runner::new(&defs);
    let value = object("demo/Inner", vec![Value::Number(-2), Value::Number(0x1234)]);
    let word = runner.call(&helper.class_name, &helper.method_name, vec![value.clone()]).unwrap();
    assert_eq!(word, Value::Number(0x1234_fffe));
    assert_eq!(runner.call(&back.class_name, &back.method_name, vec![word]), Some(value));
}

/// A coroutine that captured a number and keeps up to three values between suspensions.
fn task(layout: Result<CoroutineLayout, String>) -> RustType {
    ty(
        TypeKind::Coroutine(Coroutine {
            class_name: "demo/Task".to_string(),
            captures: vec![field("limit", unsigned(UintKind::U32, 4), 4)],
            arguments: Vec::new(),
            layout,
        }),
        "Task",
        32,
    )
}

fn state(places: Vec<(usize, usize)>) -> CoroutineState {
    CoroutineState {
        places: places
            .into_iter()
            .map(|(index, offset)| SavedPlace { index, offset })
            .collect(),
    }
}

fn task_layout(state_place: Option<StatePlace>) -> CoroutineLayout {
    CoroutineLayout {
        state: state_place,
        saved: vec![signed(IntKind::I32, 4), unsigned(UintKind::U64, 8), nested_struct()],
        variants: vec![
            state(Vec::new()),
            state(vec![(0, 8)]),
            state(vec![(1, 8), (2, 16)]),
        ],
    }
}

fn nested_value() -> Value {
    object(
        "demo/Outer",
        vec![
            Value::Number(1),
            object("demo/Inner", vec![Value::Number(-2), Value::Number(0xfedc)]),
            Value::Number(0x0102_0304_0506_0708),
        ],
    )
}

fn task_value(number: i64, first: i64, second: i64, third: Value) -> Value {
    object(
        "demo/Task",
        vec![
            Value::Number(0xffff_0001),
            Value::Number(number),
            Value::Number(first),
            Value::Number(second),
            third,
        ],
    )
}

#[test]
fn a_codec_of_a_coroutine_decodes_what_its_state_holds() {
    let task = task(Ok(task_layout(Some(StatePlace { offset: 0, size: 1 }))));
    let mut defs: Definitions = NameMap::new();
    define_type(&task, &mut defs);
    let class_name = ensure_pointer_memory_codec(&task, &mut defs).unwrap().unwrap();
    assert_eq!(class_name, "codec/Task");
    let mut runner = Runner::new(&defs);
    assert_eq!(
        runner.fields("demo/Task"),
        vec!["arg0", "__state", "state0", "state1", "state2"]
    );
    let parked = [
        (task_value(0, -70000, 9, nested_value()), task_value(0, 0, 0, Value::Null)),
        (task_value(1, -70000, 9, nested_value()), task_value(1, -70000, 0, Value::Null)),
        (task_value(2, -70000, -9, nested_value()), task_value(2, 0, -9, nested_value())),
    ];
    for (before, after) in parked {
        let encoded = runner.call(&class_name, "encode", vec![before]).unwrap();
        assert_eq!(runner.bytes(&encoded).len(), 32);
        assert_eq!(runner.call(&class_name, "decode", vec![encoded]), Some(after));
    }
}

#[test]
fn a_coroutine_is_encoded_with_its_captures_and_its_state() {
    let task = task(Ok(task_layout(Some(StatePlace { offset: 0, size: 2 }))));
    let mut defs: Definitions = NameMap::new();
    define_type(&task, &mut defs);
    let class_name = ensure_pointer_memory_codec(&task, &mut defs).unwrap().unwrap();
    let mut runner = Runner::new(&defs);
    let value = task_value(1, 0x0403_0201, 9, nested_value());
    let encoded = runner.call(&class_name, "encode", vec![value]).unwrap();
    let mut expected = vec![1, 0, 0, 0, 1, 0, -1, -1, 1, 2, 3, 4];
    expected.resize(32, 0);
    assert_eq!(runner.bytes(&encoded), expected);
}

#[test]
fn a_coroutine_without_a_layout_or_a_place_for_its_state_has_no_codec() {
    let mut defs: Definitions = NameMap::new();
    let unplaced = task(Ok(task_layout(None)));
    assert_eq!(
        ensure_pointer_memory_codec(&unplaced, &mut defs),
        Err("coroutine Task does not have a direct state-tag layout".to_string())
    );
    assert!(defs.get("codec/Task").is_none());
    let unknown = task(Err("no layout".to_string()));
    assert_eq!(
        ensure_pointer_memory_codec(&unknown, &mut defs),
        Err("no layout".to_string())
    );
    assert!(defs.get("codec/Task").is_none());
}

#[test]
fn floats_come_back_bit_for_bit() {
    let pair = ty(
        TypeKind::Tuple {
            class_name: "demo/Floats".to_string(),
            elements: vec![
                field("0", ty(TypeKind::Float(FloatKind::F32), "f32", 4), 8),
                field("1", ty(TypeKind::Float(FloatKind::F64), "f64", 8), 0),
            ],
        },
        "Floats",
        16,
    );
    let mut defs: Definitions = NameMap::new();
    define_type(&pair, &mut defs);
    let class_name = ensure_pointer_memory_codec(&pair, &mut defs).unwrap().unwrap();
    let mut runner = Runner::new(&defs);
    for (single, double) in [(1.5f32, -2.25f64), (f32::NAN, f64::NEG_INFINITY), (-0.0, 0.1)] {
        // Numbers are kept as their bits, those of 32 bits with their sign.
        let value = object(
            "demo/Floats",
            vec![
                Value::Number(single.to_bits() as i32 as i64),
                Value::Number(double.to_bits() as i64),
            ],
        );
        let encoded = runner.call(&class_name, "encode", vec![value.clone()]).unwrap();
        let bytes: Vec<u8> = runner.bytes(&encoded).iter().map(|byte| *byte as u8).collect();
        assert_eq!(bytes[..8], double.to_le_bytes());
        assert_eq!(bytes[8..12], single.to_le_bytes());
        assert_eq!(runner.call(&class_name, "decode", vec![encoded]), Some(value));
    }
}

#[test]
fn a_tag_of_sixteen_bytes_tells_the_variant() {
    let tags = [(1u128 << 100) | 5, 5, u128::MAX];
    let wide = ty(
        TypeKind::Adt(adt(
            Shape::Enum,
            "demo/Wide",
            vec![
                variant("High", tags[0], vec![field("0", signed(IntKind::I32, 4), 16)]),
                variant("Low", tags[1], vec![field("0", signed(IntKind::I32, 4), 16)]),
                variant("Last", tags[2], Vec::new()),
            ],
            VariantLayout::Direct { offset: 0, size: 16 },
        )),
        "Wide",
        32,
    );
    let mut defs: Definitions = NameMap::new();
    define_type(&wide, &mut defs);
    let class_name = ensure_pointer_memory_codec(&wide, &mut defs).unwrap().unwrap();
    let mut runner = Runner::new(&defs);
    let values = [
        object("demo/Wide$High", vec![Value::Number(-3)]),
        object("demo/Wide$Low", vec![Value::Number(4)]),
        object("demo/Wide$Last", Vec::new()),
    ];
    for (value, tag) in values.into_iter().zip(tags) {
        let encoded = runner.call(&class_name, "encode", vec![value.clone()]).unwrap();
        let bytes: Vec<u8> = runner.bytes(&encoded).iter().map(|byte| *byte as u8).collect();
        assert_eq!(bytes[..16], tag.to_le_bytes());
        assert_eq!(runner.call(&class_name, "decode", vec![encoded]), Some(value));
    }
}
