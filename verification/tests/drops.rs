use jvm_lowering::drop_glue::{cleanup_safe_drop_body, managed_drop_glue_function};
use jvm_lowering::oomir::{CodeBlock, Instruction};

fn action(name: &str) -> Vec<Instruction> {
    vec![Instruction::Jump { target: name.to_string() }]
}

/// The actions of a drop body in the order in which they are started, and how the body ends, where
/// the actions with the given names fail.
fn run(body: &CodeBlock, failing: &[&str]) -> (Vec<String>, String) {
    let mut label = body.entry.clone();
    let mut done: Vec<String> = Vec::new();
    loop {
        let list = &body.basic_blocks.get(&label).unwrap().instructions;
        match &list[0] {
            Instruction::Rethrow => return (done, "failed".to_string()),
            Instruction::InvokeStatic { .. } => return (done, "aborted".to_string()),
            Instruction::Return { .. } => return (done, "returned".to_string()),
            Instruction::UnwindStart { target } => {
                let name = match &list[1] {
                    Instruction::Jump { target } => target.clone(),
                    other => panic!("{other:?}"),
                };
                assert!(matches!(list[2], Instruction::UnwindEnd));
                let fails = failing.contains(&name.as_str());
                done.push(name);
                if fails {
                    label = target.clone();
                } else {
                    match &list[3] {
                        Instruction::Jump { target } => label = target.clone(),
                        Instruction::Return { .. } => return (done, "returned".to_string()),
                        Instruction::Rethrow => return (done, "failed".to_string()),
                        other => panic!("{other:?}"),
                    }
                }
            }
            other => panic!("{other:?}"),
        }
    }
}

fn names(list: &[&str]) -> Vec<String> {
    list.iter().map(|name| name.to_string()).collect()
}

#[test]
fn without_actions_a_drop_body_returns() {
    let body = cleanup_safe_drop_body(&Vec::new());
    assert_eq!(run(&body, &[]), (Vec::new(), "returned".to_string()));
}

#[test]
fn actions_are_done_in_order() {
    let body = cleanup_safe_drop_body(&vec![action("a"), action("b"), action("c")]);
    assert_eq!(run(&body, &[]), (names(&["a", "b", "c"]), "returned".to_string()));
    assert_eq!(body.entry, "drop_0");
}

#[test]
fn the_other_actions_are_still_done_when_one_fails() {
    let body = cleanup_safe_drop_body(&vec![action("a"), action("b"), action("c")]);
    for failing in ["a", "b", "c"] {
        assert_eq!(run(&body, &[failing]), (names(&["a", "b", "c"]), "failed".to_string()));
    }
}

#[test]
fn a_second_failure_ends_the_program() {
    let body = cleanup_safe_drop_body(&vec![action("a"), action("b"), action("c")]);
    assert_eq!(run(&body, &["a", "b"]), (names(&["a", "b"]), "aborted".to_string()));
    assert_eq!(run(&body, &["a", "c"]), (names(&["a", "b", "c"]), "aborted".to_string()));
}

#[test]
fn a_single_action_has_no_clean_up() {
    let body = cleanup_safe_drop_body(&vec![action("a")]);
    assert_eq!(run(&body, &["a"]), (names(&["a"]), "failed".to_string()));
    assert!(body.basic_blocks.get("cleanup_0").is_none());
    assert!(body.basic_blocks.get("cleanup_1").is_none());
}

#[test]
fn drop_glue_runs_the_code_of_the_type() {
    let function = managed_drop_glue_function("Owner", &action("x"));
    assert_eq!(function.name, "rustDrop");
    let entry = function.body.basic_blocks.get(&function.body.entry).unwrap();
    assert!(matches!(entry.instructions[0], Instruction::Jump { .. }));
}
