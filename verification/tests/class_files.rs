use jvm_lowering::bridges::{create_constant_method, create_relative_pointer_bridge};
use jvm_lowering::class_files::create_data_type_classfile_for_class;
use jvm_lowering::class_methods::{
    create_default_constructor, create_field_constructor, create_managed_copy_method,
};
use jvm_lowering::code::Definitions;
use jvm_lowering::constant_pool::{ConstantPool, PoolEntry, MAX_CONSTANTS};
use jvm_lowering::error::Error;
use jvm_lowering::interface_files::create_data_type_classfile_for_interface;
use jvm_lowering::jvm_ops::{get_type_size, ClassFile, Condition, MemberRef, MethodBody, Op};
use jvm_lowering::name_map::NameMap;
use jvm_lowering::numbering::number_class;
use jvm_lowering::oomir::{Constant, DataTypeMethod, Signature, Type};
use jvm_lowering::view_classes::{create_slice_view_classfile, create_utf8_view_classfile};

fn class_file(fields: Vec<(String, Type)>, is_abstract: bool) -> ClassFile {
    let defs: Definitions = NameMap::new();
    let mut methods: NameMap<DataTypeMethod> = NameMap::new();
    methods.insert(
        "getVariantIdx".to_string(),
        DataTypeMethod::SimpleConstantReturn(Type::I32, Some(Constant::I32(7))),
    );
    create_data_type_classfile_for_class(
        "game/Point",
        &fields,
        is_abstract,
        &methods,
        "java/lang/Object",
        &vec!["game/Shape".to_string()],
        &defs,
        &vec!["game/Point$Inner".to_string()],
        &None,
        &vec!["b.rs".to_string(), "a.rs".to_string()],
        &Vec::new(),
    )
}

fn fields() -> Vec<(String, Type)> {
    vec![
        ("x".to_string(), Type::I32),
        ("nothing".to_string(), Type::Unit),
        ("y".to_string(), Type::I64),
    ]
}

#[test]
fn a_class_file_has_the_fields_with_values() {
    let file = class_file(fields(), false);
    assert_eq!(file.this_class, "game/Point");
    assert_eq!(file.super_class, "java/lang/Object");
    assert!(file.interfaces.contains(&"game/Shape".to_string()));
    let names: Vec<&str> = file.fields.iter().map(|field| field.name.as_str()).collect();
    assert!(names.contains(&"x") && names.contains(&"y") && !names.contains(&"nothing"));
    let y = file.fields.iter().find(|field| field.name == "y").unwrap();
    assert_eq!(y.descriptor, "J");
}

#[test]
fn a_class_file_has_constructors_and_the_methods_of_the_class() {
    let file = class_file(fields(), false);
    let named = |name: &str| file.methods.iter().filter(|m| m.name == name).count();
    assert_eq!(named("getVariantIdx"), 1);
    assert_eq!(named("<init>"), 1);
    assert_eq!(file.methods[0].descriptor, "(IJ)V");
    let empty = class_file(Vec::new(), false);
    assert_eq!(empty.methods[0].name, "<init>");
    assert_eq!(empty.methods[0].descriptor, "()V");
    let pointers = class_file(vec![("p".to_string(), Type::Pointer(Box::new(Type::U8)))], false);
    assert_eq!(pointers.methods.iter().filter(|m| m.name == "<init>").count(), 2);
}

#[test]
fn the_source_file_is_the_least_of_those_that_are_known() {
    assert_eq!(class_file(fields(), false).source_file, Some("a.rs".to_string()));
}

#[test]
fn a_constant_method_returns_its_constant() {
    let method = create_constant_method("getVariantIdx", &Type::I32, &Some(Constant::I32(7)));
    assert_eq!(method.descriptor, "()I");
    match &method.body {
        MethodBody::Ops { ops, .. } => {
            assert!(matches!(ops.last(), Some(Op::Return { .. })));
        }
        other => panic!("{other:?}"),
    }
    let open = create_constant_method("getVariantIdx", &Type::I32, &None);
    assert!(matches!(open.body, MethodBody::Abstract));
}

#[test]
fn constructors_store_each_argument() {
    let method = create_default_constructor("java/lang/Object");
    assert_eq!(method.name, "<init>");
    assert_eq!(method.descriptor, "()V");
    let fields = vec![("x".to_string(), Type::I32), ("y".to_string(), Type::I64)];
    let method = create_field_constructor("game/Point", "java/lang/Object", &fields);
    assert_eq!(method.descriptor, "(IJ)V");
    match &method.body {
        MethodBody::Ops { ops, max_locals, .. } => {
            assert_eq!(*max_locals, 4);
            let puts: Vec<&str> = ops
                .iter()
                .filter_map(|op| match op {
                    Op::PutField { member } => Some(member.name.as_str()),
                    _ => None,
                })
                .collect();
            assert_eq!(puts, vec!["x", "y"]);
        }
        other => panic!("{other:?}"),
    }
}

#[test]
fn a_copy_is_an_object_of_the_same_class() {
    let fields = vec![("x".to_string(), Type::I32)];
    let method = create_managed_copy_method("game/Point", &fields);
    match &method.body {
        MethodBody::Ops { ops, .. } => {
            assert!(ops
                .iter()
                .any(|op| matches!(op, Op::New { class_name } if class_name == "game/Point")));
        }
        other => panic!("{other:?}"),
    }
}

#[test]
fn values_take_no_one_or_two_slots() {
    assert_eq!(get_type_size(&Type::I32), 1);
    assert_eq!(get_type_size(&Type::I64), 2);
    assert_eq!(get_type_size(&Type::F64), 2);
    assert_eq!(get_type_size(&Type::Unit), 0);
    assert_eq!(get_type_size(&Type::Str), 1);
}

#[test]
fn static_signatures_with_pointers_have_a_relative_form() {
    let with_pointer = Signature {
        params: vec![
            ("p".to_string(), Type::Pointer(Box::new(Type::U8))),
            ("n".to_string(), Type::I32),
        ],
        ret: Type::Void,
        is_static: true,
    };
    assert!(with_pointer.supports_relative_pointer_abi());
    assert_eq!(with_pointer.relative_pointer_abi_signature().params.len(), 4);
    let without = Signature {
        params: vec![("n".to_string(), Type::I32)],
        ret: Type::Void,
        is_static: true,
    };
    assert!(!without.supports_relative_pointer_abi());
    let method = Signature { is_static: false, ..with_pointer };
    assert!(!method.supports_relative_pointer_abi());
}

#[test]
fn an_interface_declares_its_methods() {
    let mut methods: NameMap<Signature> = NameMap::new();
    methods.insert(
        "run".to_string(),
        Signature {
            params: vec![
                ("self".to_string(), Type::Interface("Run".to_string())),
                ("n".to_string(), Type::I32),
            ],
            ret: Type::Boolean,
            is_static: false,
        },
    );
    let file = create_data_type_classfile_for_interface("Run", &methods).unwrap();
    assert_eq!(file.this_class, "Run");
    assert_eq!(file.methods.len(), 1);
    assert_eq!(file.methods[0].name, "run");
    assert!(matches!(file.methods[0].body, MethodBody::Abstract));
}

#[test]
fn the_runtime_views_are_complete_classes() {
    for file in [create_slice_view_classfile(), create_utf8_view_classfile()] {
        assert!(!file.methods.is_empty());
        for method in &file.methods {
            if let MethodBody::Ops { ops, .. } = &method.body {
                for op in ops {
                    match op {
                        Op::Branch { target, .. } | Op::Goto { target } => {
                            assert!((*target as usize) < ops.len(), "{}", method.name)
                        }
                        _ => {}
                    }
                }
                assert!(matches!(ops.last(), Some(Op::Return { .. })), "{}", method.name);
            }
        }
    }
}

#[test]
fn a_constant_is_numbered_once() {
    let mut pool = ConstantPool::new();
    let a = pool.add_utf8("a").unwrap();
    let b = pool.add_utf8("b").unwrap();
    assert_ne!(a, b);
    assert_eq!(pool.add_utf8("a").unwrap(), a);
    assert_eq!(pool.len(), 2);
    let class = pool.add_class("a").unwrap();
    assert_eq!(pool.add_class("a").unwrap(), class);
    assert_eq!(pool.len(), 3);
    match pool.get(class) {
        Some(PoolEntry::Class { name }) => assert_eq!(*name, a),
        other => panic!("{other:?}"),
    }
    assert!(pool.get(0).is_none());
}

#[test]
fn a_full_pool_takes_no_more() {
    let mut pool = ConstantPool::new();
    for n in 1..=MAX_CONSTANTS {
        assert_eq!(pool.add_entry(PoolEntry::Class { name: n as u16 }), Ok(n as u16));
    }
    assert_eq!(pool.add_utf8("more"), Err(Error::ConstantPoolFull));
    assert_eq!(pool.add_entry(PoolEntry::Class { name: 7 }), Ok(7));
    assert_eq!(pool.len(), MAX_CONSTANTS);
}

#[test]
fn a_class_is_numbered_with_one_pool() {
    let file = class_file(fields(), false);
    let numbered = number_class(&file).unwrap();
    match numbered.pool.get(numbered.this_class) {
        Some(PoolEntry::Class { name }) => match numbered.pool.get(*name) {
            Some(PoolEntry::Utf8(text)) => assert_eq!(text, "game/Point"),
            other => panic!("{other:?}"),
        },
        other => panic!("{other:?}"),
    }
    assert_eq!(numbered.methods.len(), file.methods.len());
    assert_eq!(numbered.fields.len(), file.fields.len());
    assert_eq!(numbered.inner_classes.len(), 1);
    assert_eq!(numbered.inner_classes[0].outer_class, numbered.this_class);
    assert_eq!(numbered.inner_classes[0].access, 0x0009);
    match numbered.inner_classes[0].name.and_then(|name| numbered.pool.get(name)) {
        Some(PoolEntry::Utf8(text)) => assert_eq!(text, "Inner"),
        other => panic!("{other:?}"),
    }
    match numbered.source_file.and_then(|name| numbered.pool.get(name)) {
        Some(PoolEntry::Utf8(text)) => assert_eq!(Some(text), file.source_file.as_ref()),
        other => panic!("{other:?}"),
    }
}

#[test]
fn a_relative_bridge_calls_the_relative_method() {
    let signature = Signature {
        params: vec![("p".to_string(), Type::Pointer(Box::new(Type::U8)))],
        ret: Type::Void,
        is_static: true,
    };
    let method = create_relative_pointer_bridge("game/Point", "touch", &signature, 9);
    match &method.body {
        MethodBody::Ops { ops, .. } => {
            let called: Vec<&MemberRef> = ops
                .iter()
                .filter_map(|op| match op {
                    Op::InvokeStatic { member } => Some(member),
                    _ => None,
                })
                .collect();
            assert_eq!(called.len(), 1);
            assert_eq!(called[0].owner, "game/Point");
        }
        other => panic!("{other:?}"),
    }
}

/// What a local variable or the stack holds while a comparison of views runs.
#[derive(Clone, Copy, Debug)]
enum Cell {
    Number(i64),
    View(usize),
    Array(usize),
}

/// Runs a comparison of two views, each of them an array, an offset and a length.
fn compare(ops: &[Op], arrays: [&[i64]; 2], spans: [(i64, i64); 2]) -> i64 {
    let mut locals = vec![Cell::View(0), Cell::View(1), Cell::Number(-1)];
    let mut stack: Vec<Cell> = Vec::new();
    let mut at = 0;
    let number = |cell: Option<Cell>| match cell {
        Some(Cell::Number(value)) => value,
        other => panic!("{other:?} is no number"),
    };
    loop {
        let mut next = at + 1;
        match &ops[at] {
            Op::Load { local, .. } => stack.push(locals[*local as usize]),
            Op::Store { local, .. } => locals[*local as usize] = stack.pop().unwrap(),
            Op::PushInt { value } => stack.push(Cell::Number(*value as i64)),
            Op::GetField { member } => {
                let view = match stack.pop() {
                    Some(Cell::View(view)) => view,
                    other => panic!("{other:?} is no view"),
                };
                stack.push(match member.name.as_str() {
                    "offset" => Cell::Number(spans[view].0),
                    "length" => Cell::Number(spans[view].1),
                    _ => Cell::Array(view),
                });
            }
            Op::AddInt => {
                let sum = number(stack.pop()) + number(stack.pop());
                stack.push(Cell::Number(sum));
            }
            Op::InvokeStatic { member } if member.name == "equals" => {
                let same = number(stack.pop()) == number(stack.pop());
                stack.push(Cell::Number(same as i64));
            }
            Op::InvokeStatic { member } if member.name == "startsWith" => {
                assert!(matches!(stack.pop(), Some(Cell::View(1))));
                assert!(matches!(stack.pop(), Some(Cell::View(0))));
                let file = create_utf8_view_classfile();
                stack.push(Cell::Number(compare(method_ops(&file, "startsWith"), arrays, spans)));
            }
            Op::IntToLong => {}
            Op::InvokeStatic { .. } => {
                let index = number(stack.pop());
                match stack.pop() {
                    Some(Cell::Array(array)) => {
                        stack.push(Cell::Number(arrays[array][index as usize]))
                    }
                    other => panic!("{other:?} is no array"),
                }
            }
            Op::Branch { condition, target } => {
                let right = number(stack.pop());
                let taken = match condition {
                    Condition::IsZero => right == 0,
                    Condition::IntsDiffer => number(stack.pop()) != right,
                    Condition::IntIsAtLeast => number(stack.pop()) >= right,
                    Condition::IntIsGreater => number(stack.pop()) > right,
                    other => panic!("{other:?}"),
                };
                if taken {
                    next = *target as usize;
                }
            }
            Op::Goto { target } => next = *target as usize,
            Op::Increment { local, by } => {
                let value = number(Some(locals[*local as usize]));
                locals[*local as usize] = Cell::Number(value + *by as i64);
            }
            Op::Return { .. } => return number(stack.pop()),
            other => panic!("{other:?}"),
        }
        at = next;
    }
}

#[test]
fn views_start_with_the_elements_at_their_front() {
    let mut compared = 0;
    for file in [create_slice_view_classfile(), create_utf8_view_classfile()] {
        for method in &file.methods {
            let ops = match &method.body {
                MethodBody::Ops { ops, .. } if method.name.starts_with("startsWith") => ops,
                _ => continue,
            };
            if !ops.iter().any(|op| matches!(op, Op::Increment { .. })) {
                continue;
            }
            compared += 1;
            let text: &[i64] = &[9, 1, 2, 3, 4];
            let front: &[i64] = &[7, 7, 1, 2, 5];
            assert_eq!(compare(ops, [text, front], [(1, 4), (2, 2)]), 1);
            assert_eq!(compare(ops, [text, front], [(1, 4), (2, 3)]), 0);
            assert_eq!(compare(ops, [text, front], [(0, 5), (2, 2)]), 0);
            assert_eq!(compare(ops, [text, front], [(1, 1), (2, 2)]), 0);
            assert_eq!(compare(ops, [text, front], [(5, 0), (5, 0)]), 1);
        }
    }
    assert_eq!(compared, 4);
}

fn method_ops<'a>(file: &'a ClassFile, name: &str) -> &'a [Op] {
    match file.methods.iter().find(|method| method.name == name).map(|method| &method.body) {
        Some(MethodBody::Ops { ops, .. }) => ops,
        other => panic!("{name}: {other:?}"),
    }
}

#[test]
fn texts_are_equal_if_their_lengths_and_bytes_are() {
    let file = create_utf8_view_classfile();
    let ops = method_ops(&file, "equals");
    let text: &[i64] = &[9, 1, 2, 3, 4];
    let other: &[i64] = &[7, 7, 1, 2, 5];
    assert_eq!(compare(ops, [text, other], [(1, 2), (2, 2)]), 1);
    assert_eq!(compare(ops, [text, other], [(1, 3), (2, 2)]), 0);
    assert_eq!(compare(ops, [text, other], [(1, 3), (2, 3)]), 0);
    assert_eq!(compare(ops, [text, other], [(0, 0), (5, 0)]), 1);
}

#[test]
fn the_length_of_a_text_is_that_of_its_view() {
    let file = create_utf8_view_classfile();
    let ops = method_ops(&file, "len");
    assert_eq!(compare(ops, [&[1, 2, 3], &[]], [(1, 2), (0, 0)]), 2);
}

#[test]
fn a_text_of_a_view_takes_over_its_fields() {
    let file = create_utf8_view_classfile();
    let fields: Vec<&str> = method_ops(&file, "fromSlice")
        .iter()
        .filter_map(|op| match op {
            Op::GetField { member } => Some(member.name.as_str()),
            _ => None,
        })
        .collect();
    assert_eq!(fields, vec!["array", "offset", "length"]);
    let shown = method_ops(&file, "asSlice");
    assert!(matches!(shown, [Op::Load { local: 0, .. }, Op::Return { .. }]));
}

#[test]
fn class_files_are_those_of_java_8() {
    let interface =
        create_data_type_classfile_for_interface("Run", &NameMap::new()).unwrap();
    for file in [
        class_file(fields(), false),
        interface,
        create_slice_view_classfile(),
        create_utf8_view_classfile(),
    ] {
        assert_eq!((file.major_version, file.minor_version), (52, 0));
    }
}

#[test]
fn member_classes_are_public_and_static() {
    let file = class_file(fields(), false);
    assert_eq!(file.inner_classes.len(), 1);
    assert_eq!(file.inner_classes[0].class_name, "game/Point$Inner");
    assert_eq!(file.inner_classes[0].access, 0x0009);
}

#[test]
fn only_calls_of_function_pointers_are_bounded_in_their_slots() {
    let wide = Signature {
        params: (0..300).map(|i| (format!("arg{i}"), Type::I64)).collect(),
        ret: Type::Void,
        is_static: false,
    };
    let mut methods: NameMap<Signature> = NameMap::new();
    methods.insert("run".to_string(), wide);
    let file = create_data_type_classfile_for_interface("Run", &methods).unwrap();
    assert_eq!(file.methods.len(), 1);
}
