use jvm_lowering::carrier::RESTORE_PREFIX;
use jvm_lowering::chunks::{block_cost, MAX_CHUNK_COST};
use jvm_lowering::flow::{
    block_unwind_only_successors, successor_map, Variable, UNWIND_EXCEPTION_LOCAL,
};
use jvm_lowering::liveness::live_variables;
use jvm_lowering::name_map::NameMap;
use jvm_lowering::oomir::{
    BasicBlock, BinaryOp, CodeBlock, CompareOp, Constant, Function, Instruction, Operand, Signature,
    Type,
};
use jvm_lowering::outline::{
    outline_function, outline_identity, outline_large_functions, outline_owner, Naming,
    PARAMETER_PREFIX,
};
use std::collections::HashMap;

fn block(label: &str, instructions: Vec<Instruction>) -> BasicBlock {
    BasicBlock {
        label: label.to_string(),
        instructions,
    }
}

fn unwind_exception() -> Variable {
    Variable {
        name: UNWIND_EXCEPTION_LOCAL.to_string(),
        ty: Type::Class("java/lang/Throwable".to_string()),
    }
}

fn naming(labels: &[&str]) -> Naming {
    let mut digests = NameMap::new();
    for label in labels {
        digests.insert(label.to_string(), format!("digest-of-{label}"));
    }
    Naming {
        owner: "Test".to_string(),
        identity: "0123456789abcdef".to_string(),
        digests,
    }
}

#[test]
fn unwind_handler_defines_exception_local_without_killing_cleanup_liveness() {
    let value = Variable {
        name: "value".to_string(),
        ty: Type::I32,
    };
    let mut basic_blocks = NameMap::new();
    basic_blocks.insert(
        "entry".to_string(),
        block(
            "entry",
            vec![
                Instruction::UnwindStart {
                    target: "cleanup".to_string(),
                },
                Instruction::UnwindEnd,
                Instruction::Return { operand: None },
            ],
        ),
    );
    basic_blocks.insert(
        "cleanup".to_string(),
        block(
            "cleanup",
            vec![
                Instruction::Move {
                    dest: "copy".to_string(),
                    src: Operand::Variable {
                        name: "value".to_string(),
                        ty: Type::I32,
                    },
                },
                Instruction::Rethrow,
            ],
        ),
    );
    let body = CodeBlock {
        entry: "entry".to_string(),
        basic_blocks,
    };
    let successors = successor_map(&body);
    let live = live_variables(&body, &successors, &NameMap::new());

    assert!(live.get("cleanup").unwrap().contains(&unwind_exception()));
    assert!(live.get("entry").unwrap().contains(&value));
    assert!(!live.get("entry").unwrap().contains(&unwind_exception()));
}

fn padding(count: usize) -> Vec<Instruction> {
    (0..count)
        .map(|_| Instruction::Move {
            dest: "padding".to_string(),
            src: Operand::Constant(Constant::I32(0)),
        })
        .collect()
}

#[test]
fn outlining_does_not_pass_handler_defined_exception_into_protected_chunk() {
    let mut entry_instructions = padding(MAX_CHUNK_COST + 1);
    entry_instructions.push(Instruction::Jump {
        target: "protected".to_string(),
    });

    let mut protected_instructions = padding(MAX_CHUNK_COST + 1);
    protected_instructions.extend([
        Instruction::UnwindStart {
            target: "cleanup".to_string(),
        },
        Instruction::UnwindEnd,
        Instruction::Return { operand: None },
    ]);

    let mut basic_blocks = NameMap::new();
    basic_blocks.insert("entry".to_string(), block("entry", entry_instructions));
    basic_blocks.insert(
        "protected".to_string(),
        block("protected", protected_instructions),
    );
    basic_blocks.insert(
        "cleanup".to_string(),
        block("cleanup", vec![Instruction::Rethrow]),
    );

    let function = Function {
        name: "outlined_unwind".to_string(),
        owner_class: Some("Test".to_string()),
        signature: Signature {
            params: Vec::new(),
            ret: Type::Unit,
            is_static: true,
        },
        debug_variables: Vec::new(),
        body: CodeBlock {
            entry: "entry".to_string(),
            basic_blocks,
        },
    };

    let outlined = outline_function(function, &naming(&["entry", "protected", "cleanup"]))
        .expect("outlining should succeed");
    let protected = outlined
        .iter()
        .find(|function| function.body.basic_blocks.contains_key("protected"))
        .expect("protected block should be outlined");
    let cleanup = outlined
        .iter()
        .find(|function| function.body.basic_blocks.contains_key("cleanup"))
        .expect("cleanup block should be outlined");
    let exception_parameter = format!("{PARAMETER_PREFIX}{UNWIND_EXCEPTION_LOCAL}");

    assert!(protected
        .signature
        .params
        .iter()
        .all(|(name, _)| name != &exception_parameter));
    assert!(cleanup
        .signature
        .params
        .iter()
        .any(|(name, ty)| name == &exception_parameter
            && ty == &Type::Class("java/lang/Throwable".to_string())));
}

#[test]
fn mixed_normal_and_unwind_target_is_not_unwind_only() {
    let block = block(
        "entry",
        vec![
            Instruction::UnwindStart {
                target: "cleanup".to_string(),
            },
            Instruction::Jump {
                target: "cleanup".to_string(),
            },
        ],
    );

    assert!(!block_unwind_only_successors(&block).contains(&"cleanup".to_string()));
}

/// What a variable holds while a function runs.
#[derive(Clone, Copy, Debug, PartialEq)]
enum Value {
    Number(i64),
    Array(usize),
}

/// Runs functions; calls of functions that are not among them are written down, and the one called
/// `fail` throws its argument.
struct Runner<'a> {
    functions: &'a [Function],
    arrays: Vec<Vec<Option<Value>>>,
    calls: Vec<(String, Vec<Value>)>,
}

type Locals = HashMap<String, Value>;

fn constant(constant: &Constant) -> Value {
    match constant {
        Constant::I32(value) => Value::Number(*value as i64),
        Constant::Boolean(value) => Value::Number(*value as i64),
        other => panic!("{other:?}"),
    }
}

fn value(operand: &Operand, locals: &Locals) -> Value {
    match operand {
        Operand::Constant(c) => constant(c),
        Operand::Variable { name, .. } => match locals.get(name) {
            Some(value) => *value,
            None => panic!("{name} holds nothing"),
        },
    }
}

fn number(operand: &Operand, locals: &Locals) -> i64 {
    match value(operand, locals) {
        Value::Number(number) => number,
        other => panic!("{other:?} is no number"),
    }
}

impl<'a> Runner<'a> {
    fn array(&self, value: Value) -> usize {
        match value {
            Value::Array(index) => index,
            other => panic!("{other:?} is no array"),
        }
    }

    fn run(&mut self, function: &'a Function, mut locals: Locals) -> Result<Option<Value>, i64> {
        let mut label = function.body.entry.clone();
        loop {
            let block = function.body.basic_blocks.get(&label).expect("a block");
            match self.run_block(block, &mut locals) {
                Ok(Ok(next)) => label = next,
                Ok(Err(result)) => return Ok(result),
                Err((exception, None)) => return Err(exception),
                Err((exception, Some(handler))) => {
                    locals.insert(UNWIND_EXCEPTION_LOCAL.to_string(), Value::Number(exception));
                    label = handler;
                }
            }
        }
    }

    #[allow(clippy::type_complexity)]
    fn run_block(
        &mut self,
        block: &BasicBlock,
        locals: &mut Locals,
    ) -> Result<Result<String, Option<Value>>, (i64, Option<String>)> {
        let mut handler = None;
        for instruction in &block.instructions {
            match instruction {
                Instruction::Move { dest, src } => {
                    let moved = value(src, locals);
                    locals.insert(dest.clone(), moved);
                }
                Instruction::Binary { op, dest, op1, op2 } => {
                    assert_eq!(*op, BinaryOp::Add);
                    let sum = number(op1, locals) + number(op2, locals);
                    locals.insert(dest.clone(), Value::Number(sum));
                }
                Instruction::Compare { op, dest, op1, op2 } => {
                    assert_eq!(*op, CompareOp::Lt);
                    let less = number(op1, locals) < number(op2, locals);
                    locals.insert(dest.clone(), Value::Number(less as i64));
                }
                Instruction::Jump { target } => return Ok(Ok(target.clone())),
                Instruction::Branch { condition, true_block, false_block } => {
                    let target = if number(condition, locals) != 0 { true_block } else { false_block };
                    return Ok(Ok(target.clone()));
                }
                Instruction::Switch { discr, targets, otherwise } => {
                    let found = value(discr, locals);
                    let target = targets.iter().find(|(case, _)| constant(case) == found);
                    return Ok(Ok(target.map_or(otherwise, |(_, target)| target).clone()));
                }
                Instruction::Return { operand } => {
                    return Ok(Err(operand.as_ref().map(|operand| value(operand, locals))));
                }
                Instruction::NewArray { dest, size, .. } => {
                    let size = number(size, locals) as usize;
                    self.arrays.push(vec![None; size]);
                    locals.insert(dest.clone(), Value::Array(self.arrays.len() - 1));
                }
                Instruction::ArrayStore { array, index, value: stored, .. } => {
                    let array = self.array(locals[array]);
                    let index = number(index, locals) as usize;
                    self.arrays[array][index] = Some(value(stored, locals));
                }
                Instruction::ArrayGet { dest, array, index } => {
                    let array = self.array(value(array, locals));
                    let index = number(index, locals) as usize;
                    let found = self.arrays[array][index].unwrap_or(Value::Number(0));
                    locals.insert(dest.clone(), found);
                }
                Instruction::Cast { op, dest, .. } => {
                    let restored = dest.strip_prefix(RESTORE_PREFIX).unwrap_or(dest);
                    let moved = value(op, locals);
                    locals.insert(restored.to_string(), moved);
                }
                Instruction::UnwindStart { target } => handler = Some(target.clone()),
                Instruction::UnwindEnd => handler = None,
                Instruction::Rethrow => match locals[UNWIND_EXCEPTION_LOCAL] {
                    Value::Number(exception) => return Err((exception, handler)),
                    other => panic!("{other:?}"),
                },
                Instruction::InvokeStatic { dest, method_name, args, .. } => {
                    let args: Vec<Value> = args.iter().map(|arg| value(arg, locals)).collect();
                    match self.call(method_name, args) {
                        Ok(result) => {
                            if let Some(dest) = dest {
                                locals.insert(dest.clone(), result.expect("a result"));
                            }
                        }
                        Err(exception) => return Err((exception, handler)),
                    }
                }
                other => panic!("{other:?}"),
            }
        }
        panic!("{} has no end", block.label);
    }

    fn call(&mut self, name: &str, args: Vec<Value>) -> Result<Option<Value>, i64> {
        match self.functions.iter().find(|function| function.name == name) {
            Some(function) => {
                let mut locals = Locals::new();
                for ((name, _), arg) in function.signature.params.iter().zip(args) {
                    let name = name.strip_prefix(PARAMETER_PREFIX).expect("a prefix");
                    locals.insert(name.to_string(), arg);
                }
                self.run(function, locals)
            }
            None => {
                self.calls.push((name.to_string(), args.clone()));
                match args.first() {
                    Some(Value::Number(exception)) if name == "fail" => Err(*exception),
                    first => Ok(first.copied()),
                }
            }
        }
    }
}

/// What the first function does with an argument: its result or exception, and what it calls.
#[allow(clippy::type_complexity)]
fn behaviour(
    functions: &[Function],
    argument: i64,
) -> (Result<Option<Value>, i64>, Vec<(String, Vec<Value>)>) {
    let mut runner = Runner { functions, arrays: Vec::new(), calls: Vec::new() };
    let locals = Locals::from([("_1".to_string(), Value::Number(argument))]);
    let result = runner.run(&functions[0], locals);
    (result, runner.calls)
}

fn local(name: &str) -> Operand {
    Operand::Variable { name: name.to_string(), ty: Type::I32 }
}

fn i32_constant(value: i32) -> Operand {
    Operand::Constant(Constant::I32(value))
}

fn add(dest: &str, op1: Operand, op2: Operand) -> Instruction {
    Instruction::Binary { op: BinaryOp::Add, dest: dest.to_string(), op1, op2 }
}

fn jump(target: &str) -> Instruction {
    Instruction::Jump { target: target.to_string() }
}

fn call(name: &str, arg: Operand) -> Instruction {
    Instruction::InvokeStatic {
        dest: None,
        class_name: "Outside".to_string(),
        method_name: name.to_string(),
        method_ty: Signature {
            params: vec![("x".to_string(), Type::I32)],
            ret: Type::Void,
            is_static: true,
        },
        args: vec![arg],
    }
}

/// A block of one chunk: so much padding that no other block fits beside it.
fn wide(label: &str, rest: Vec<Instruction>) -> BasicBlock {
    let mut instructions = padding(MAX_CHUNK_COST - 100);
    instructions.extend(rest);
    block(label, instructions)
}

fn function(blocks: Vec<BasicBlock>) -> Function {
    let mut basic_blocks = NameMap::new();
    let entry = blocks[0].label.clone();
    for block in blocks {
        basic_blocks.insert(block.label.clone(), block);
    }
    Function {
        name: "large".to_string(),
        owner_class: None,
        signature: Signature {
            params: vec![("x".to_string(), Type::I32)],
            ret: Type::I32,
            is_static: true,
        },
        debug_variables: Vec::new(),
        body: CodeBlock { entry, basic_blocks },
    }
}

/// A naming with a digest of its own for each label.
fn plain_naming(function: &Function) -> Naming {
    let mut digests = NameMap::new();
    for i in 0..function.body.basic_blocks.len() {
        digests.insert(function.body.basic_blocks.key_at(i).clone(), format!("{i:010}"));
    }
    Naming { owner: "Test".to_string(), identity: "0123456789abcdef".to_string(), digests }
}

/// Divides a function and compares what the parts do with what it does.
fn divided(make: fn() -> Function, arguments: &[i64]) -> Vec<Function> {
    let naming = plain_naming(&make());
    let parts = outline_function(make(), &naming).expect("a division");
    assert!(parts.len() > 1);
    let whole = [make()];
    for argument in arguments {
        assert_eq!(behaviour(&parts, *argument), behaviour(&whole, *argument));
    }
    parts
}

/// A loop in the first chunk, a choice between two entries of the next one, and a sum in the last.
fn branching() -> Function {
    function(vec![
        wide("start", vec![
            Instruction::Move { dest: "sum".to_string(), src: i32_constant(0) },
            Instruction::Move { dest: "i".to_string(), src: i32_constant(0) },
            jump("loop"),
        ]),
        block("loop", vec![
            add("sum", local("sum"), local("i")),
            add("i", local("i"), i32_constant(1)),
            call("seen", local("i")),
            Instruction::Compare {
                op: CompareOp::Lt,
                dest: "more".to_string(),
                op1: local("i"),
                op2: local("_1"),
            },
            Instruction::Branch {
                condition: Operand::Variable { name: "more".to_string(), ty: Type::Boolean },
                true_block: "loop".to_string(),
                false_block: "choose".to_string(),
            },
        ]),
        block("choose", vec![Instruction::Switch {
            discr: local("_1"),
            targets: vec![(Constant::I32(3), "left".to_string())],
            otherwise: "right".to_string(),
        }]),
        block("left", {
            let mut instructions = padding(400);
            instructions.extend([add("sum", local("sum"), i32_constant(1000)), jump("end")]);
            instructions
        }),
        block("right", {
            let mut instructions = padding(400);
            instructions.extend([add("sum", local("sum"), local("_1")), jump("end")]);
            instructions
        }),
        wide("end", vec![
            call("end", local("sum")),
            Instruction::Return { operand: Some(local("sum")) },
        ]),
    ])
}

#[test]
fn outlined_methods_return_what_the_function_returns() {
    let parts = divided(branching, &[0, 1, 3, 7]);
    let whole = [branching()];
    assert_eq!(behaviour(&whole, 3).0, Ok(Some(Value::Number(1003))));
    assert!(parts.iter().any(|part| part.signature.params.iter().any(|(name, _)| {
        name == &format!("{PARAMETER_PREFIX}__outlined_selector")
    })));
    assert_eq!(parts[0].name, "large");
    let labels = ["start", "loop", "choose", "left", "right", "end"];
    for label in labels {
        let holders = parts.iter().filter(|part| part.body.basic_blocks.contains_key(label));
        assert_eq!(holders.count(), 1);
    }
    for part in &parts {
        let own = labels.iter().filter_map(|label| part.body.basic_blocks.get(label));
        assert!(own.map(block_cost).sum::<usize>() <= MAX_CHUNK_COST);
    }
}

/// More live variables than parameters can take.
fn crowded() -> Function {
    let names: Vec<String> = (0..300).map(|i| format!("v{i:03}")).collect();
    let mut first: Vec<Instruction> =
        names.iter().map(|name| add(name, local("_1"), local("_1"))).collect();
    first.push(add("v007", local("_1"), i32_constant(5)));
    first.push(jump("middle"));
    let mut last: Vec<Instruction> =
        vec![Instruction::Move { dest: "sum".to_string(), src: i32_constant(0) }];
    last.extend(names.iter().map(|name| add("sum", local("sum"), local(name))));
    last.push(Instruction::Return { operand: Some(local("sum")) });
    let mut start = padding(500);
    start.extend(first);
    let mut middle = padding(MAX_CHUNK_COST - 10);
    middle.extend([add("v100", local("v100"), local("v007")), jump("end")]);
    let mut end = padding(500);
    end.extend(last);
    function(vec![block("start", start), block("middle", middle), block("end", end)])
}

#[test]
fn variables_that_are_no_parameters_are_carried_in_arrays() {
    let parts = divided(crowded, &[0, 2, -9]);
    let whole = [crowded()];
    assert_eq!(behaviour(&whole, 2).0, Ok(Some(Value::Number(299 * 4 + 7 + 7))));
    for part in &parts[1..] {
        assert_eq!(part.signature.params.len(), 1);
        assert_eq!(part.signature.params[0].1, Type::Array(Box::new(Type::I32)));
    }
}

/// A call that throws, and a handler in another chunk that needs a variable of the first.
fn throwing() -> Function {
    function(vec![
        wide("start", vec![
            add("kept", local("_1"), i32_constant(40)),
            jump("guarded"),
        ]),
        wide("guarded", vec![
            Instruction::UnwindStart { target: "handler".to_string() },
            call("fail", local("_1")),
            Instruction::UnwindEnd,
            Instruction::Return { operand: Some(local("kept")) },
        ]),
        wide("handler", vec![call("cleanup", local("kept")), Instruction::Rethrow]),
    ])
}

#[test]
fn outlined_methods_throw_what_the_function_throws() {
    divided(throwing, &[2, 5]);
    let (result, calls) = behaviour(&[throwing()], 2);
    assert_eq!(result, Err(2));
    assert_eq!(calls[1], ("cleanup".to_string(), vec![Value::Number(42)]));
}

#[test]
fn a_large_function_must_reach_all_its_blocks() {
    let make = || {
        function(vec![
            wide("start", vec![Instruction::Return { operand: Some(local("_1")) }]),
            wide("lost", vec![Instruction::Return { operand: Some(local("_1")) }]),
        ])
    };
    let naming = plain_naming(&make());
    let error = outline_function(make(), &naming).expect_err("an unreachable block");
    assert!(format!("{error:?}").contains("unreachable blocks"));
}

#[test]
fn small_functions_stay_as_they_are() {
    let small = || {
        function(vec![block("start", vec![Instruction::Return { operand: Some(local("_1")) }])])
    };
    let namings = vec![plain_naming(&small()), plain_naming(&branching())];
    let all = outline_large_functions(vec![small(), branching()], &namings).expect("a division");
    assert_eq!(all.len(), 2);
    assert_eq!(all[0].len(), 1);
    assert!(all[1].len() > 1);
    assert_eq!(behaviour(&all[0], 9), behaviour(&[small()], 9));
    assert_eq!(behaviour(&all[1], 3), behaviour(&[branching()], 3));
}

#[test]
fn parts_belong_to_the_class_of_their_function() {
    let mut whole = branching();
    assert_eq!(outline_owner("module", &whole), "module");
    assert_eq!(outline_identity("module", &whole), "module::large(I)I");
    whole.owner_class = Some("game/World".to_string());
    assert_eq!(outline_owner("module", &whole), "game/World");
}
