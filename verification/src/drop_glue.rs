//! The code that drops the parts of a value, one after the other, also when dropping one fails.
use crate::code::{
    Code, CodeModel, args0, args1, block_put, calls_virtual, class, class_type, construct,
    decimal_usize, emit, emit_all, empty_blocks, empty_code, ends_unwind, field_read,
    instance_method, instance_signature, jump, jumps, make_args0, make_args1, make_function,
    make_params1, make_typed0, makes_object, no_blocks, object_class, object_type, operand_var,
    params1, plain_function, put_block, reads_field, rethrow, rethrows, return_nothing,
    returns_nothing, runs_static, runs_virtual, simple_body, single_block, starts_unwind,
    static_method, static_run, static_signature, throw_new, throws_new, typed0, unit_operand,
    unit_value, unwind_end, unwind_start, variable, virtual_call, virtual_run,
};
use crate::codec::first_variant_of;
use crate::descriptor::{POINTER_CLASS, class_name_of};
use crate::flow::{THROWABLE_CLASS, UNWIND_EXCEPTION_LOCAL};
use crate::layout::{
    Slot, SlotModel, SlotNames, get_slot, name_slot, plan_variant_slots, slot_at, slot_name,
    slots_of_variant,
};
use crate::oomir::{
    Duplicate, BasicBlockModel, CodeBlock, CodeBlockModel, Function, FunctionModel, Instruction,
    InstructionModel, Operand, OperandModel, Text, Type, TypeModel, has_value, operand_type,
};
use crate::rust_type::{Adt, Field, GenericArg, Role, RustType, Shape, TypeKind, ZeroSized, lowered};
use crate::text::{cat2, cat3, decimal_text};
use crate::union_storage::{add_offsets, offset_sum};
use vstd::prelude::*;
use vstd::string::*;

verus! {

/// The method that drops the fields of a value.
pub const ENUM_DROP_FIELDS_METHOD: &'static str = "_rust_drop_fields";

/// The method that drops a value.
pub const MANAGED_DROP_METHOD: &'static str = "rustDrop";

/// The interface of values that the runtime drops.
pub const MANAGED_DROP_INTERFACE: &'static str = "org/rustlang/runtime/RustDrop";

/// The runtime class that ends the program.
pub const PANIC_SUPPORT_CLASS: &'static str = "org/rustlang/runtime/PanicSupport";

/// Drops a value through the runtime; a value without JVM representation is made first, where there
/// is a way.
#[verifier::opaque]
pub open spec fn value_drop(
    ty: RustType,
    value: OperandModel,
    temp_prefix: Text,
    code: CodeModel,
) -> CodeModel {
    if has_value(lowered(ty)) {
        let code = runtime_drop(value, code);
        code
    } else {
        match ty.zero_sized {
            ZeroSized::Instance { class_name } => {
                let dest = (temp_prefix + "_zst"@);
                let code = emit(code, makes_object(dest, class_name@, typed0()));
                let code = runtime_drop(variable(dest, class(class_name@)), code);
                code
            },
            _ => {
                code
            },
        }
    }
}

/// Drops a value through the runtime.
pub fn emit_managed_value_drop(ty: &RustType, value: &Operand, temp_prefix: &str, code: &mut Code)
    ensures
        final(code).deep_view() == value_drop(
            *ty,
            value.deep_view(),
            temp_prefix@,
            old(code).deep_view(),
        ),
{
    proof {
        reveal(value_drop);
    }
    if Type::has_jvm_value(&RustType::jvm_type(ty)) {
        emit_runtime_drop(value, code);
    } else {
        match &ty.zero_sized {
            ZeroSized::Instance { class_name } => {
                let dest = cat2(temp_prefix, "_zst");
                code.push(construct(dest.as_str(), class_name.as_str(), &make_typed0()));
                emit_runtime_drop(
                    &operand_var(dest.as_str(), &class_type(class_name.as_str())),
                    code,
                );
            },
            _ => {

            },
        }
    }
}

/// Drops an object through the runtime.
#[verifier::opaque]
pub open spec fn runtime_drop(value: OperandModel, code: CodeModel) -> CodeModel {
    let code = emit(
        code,
        runs_static(
            POINTER_CLASS@,
            "dropRustValue"@,
            static_method(params1("value"@, object_class()), Type::Void),
            args1(value),
        ),
    );
    code
}

/// Drops an object through the runtime.
pub fn emit_runtime_drop(value: &Operand, code: &mut Code)
    ensures
        final(code).deep_view() == runtime_drop(value.deep_view(), old(code).deep_view()),
{
    proof {
        reveal(runtime_drop);
    }
    code.push(
        static_run(
            POINTER_CLASS,
            "dropRustValue",
            &static_signature(&make_params1("value", &object_type()), &Type::Void),
            &make_args1(value),
        ),
    );
}

/// What is done if dropping an action fails: the actions behind it, or nothing more.
pub open spec fn cleanup_target(index: nat, count: nat) -> Text {
    if index + 1 < count {
        "cleanup_"@ + decimal_text(index + 1)
    } else {
        "rethrow"@
    }
}

/// A step of dropping: an action, where its failure leads, and what comes behind it.
pub open spec fn guarded(
    action: Seq<InstructionModel>,
    failure: Text,
    last: InstructionModel,
) -> Seq<InstructionModel> {
    seq![starts_unwind(failure)] + action + seq![ends_unwind(), last]
}

fn guard_action(
    action: &Vec<Instruction>,
    failure: &str,
    last: Instruction,
) -> (r: Vec<Instruction>)
    ensures
        r.deep_view() == guarded(action.deep_view(), failure@, last.deep_view()),
{
    let mut code = Code::new(0);
    let ghost end = last.deep_view();
    code.push(unwind_start(failure));
    code.append(action);
    code.push(unwind_end());
    code.push(last);
    assert(code.deep_view().instructions =~= guarded(action.deep_view(), failure@, end));
    code.into_instructions()
}

/// What follows an action when none has failed: the next one, or the end.
pub open spec fn drop_end(index: nat, count: nat) -> InstructionModel {
    if index + 1 < count {
        jumps("drop_"@ + decimal_text(index + 1))
    } else {
        returns_nothing()
    }
}

/// What follows an action when one has failed: the next one, or the failure goes on.
pub open spec fn cleanup_end(index: nat, count: nat) -> InstructionModel {
    if index + 1 < count {
        jumps("cleanup_"@ + decimal_text(index + 1))
    } else {
        rethrows()
    }
}

/// The blocks of the first actions.
pub open spec fn drop_blocks(
    actions: Seq<Seq<InstructionModel>>,
    n: nat,
) -> Map<Text, BasicBlockModel>
    decreases n,
{
    if n == 0 || n > actions.len() {
        no_blocks()
    } else {
        let index = (n - 1) as nat;
        block_put(
            "drop_"@ + decimal_text(index),
            guarded(
                actions[index as int],
                cleanup_target(index, actions.len()),
                drop_end(index, actions.len()),
            ),
            drop_blocks(actions, index),
        )
    }
}

/// The blocks of the first actions, and those in which actions are done after a failure.
pub open spec fn cleanup_blocks(actions: Seq<Seq<InstructionModel>>, n: nat) -> Map<
    Text,
    BasicBlockModel,
>
    decreases n,
{
    if n <= 1 || n > actions.len() {
        drop_blocks(actions, actions.len())
    } else {
        let index = (n - 1) as nat;
        block_put(
            "cleanup_"@ + decimal_text(index),
            guarded(actions[index as int], "abort"@, cleanup_end(index, actions.len())),
            cleanup_blocks(actions, index),
        )
    }
}

/// The block that ends the program because dropping failed twice.
pub open spec fn abort_block() -> Seq<InstructionModel> {
    seq![
        runs_static(
            PANIC_SUPPORT_CLASS@,
            "abort"@,
            static_method(params1("failure"@, class(THROWABLE_CLASS@)), Type::Void),
            args1(variable(UNWIND_EXCEPTION_LOCAL@, class(THROWABLE_CLASS@))),
        ),
        throws_new("java/lang/AssertionError"@, "Rust abort unexpectedly returned"@),
    ]
}

fn make_abort_block() -> (r: Vec<Instruction>)
    ensures
        r.deep_view() == abort_block(),
{
    let mut code = Code::new(0);
    code.push(
        static_run(
            PANIC_SUPPORT_CLASS,
            "abort",
            &static_signature(
                &make_params1("failure", &class_type(THROWABLE_CLASS)),
                &Type::Void,
            ),
            &make_args1(&operand_var(UNWIND_EXCEPTION_LOCAL, &class_type(THROWABLE_CLASS))),
        ),
    );
    code.push(throw_new("java/lang/AssertionError", "Rust abort unexpectedly returned"));
    assert(code.deep_view().instructions =~= abort_block());
    code.into_instructions()
}

/// The body that does actions one after the other. If one fails, those behind it are still done
/// before the failure goes on; if another one fails then, the program ends.
pub open spec fn safe_drop_body(actions: Seq<Seq<InstructionModel>>) -> CodeBlockModel {
    if actions.len() == 0 {
        single_block(seq![returns_nothing()])
    } else {
        CodeBlockModel {
            entry: "drop_0"@,
            basic_blocks: block_put(
                "abort"@,
                abort_block(),
                block_put("rethrow"@, seq![rethrows()], cleanup_blocks(actions, actions.len())),
            ),
        }
    }
}

/// The body that does actions one after the other, also when one fails.
pub fn cleanup_safe_drop_body(actions: &Vec<Vec<Instruction>>) -> (r: CodeBlock)
    ensures
        r.deep_view() == safe_drop_body(actions.deep_view()),
{
    let ghost model = actions.deep_view();
    let count: usize = actions.len();
    if count == 0 {
        let mut code = Code::new(0);
        code.push(return_nothing());
        assert(code.deep_view().instructions =~= seq![returns_nothing()]);
        return simple_body(&code.into_instructions());
    }
    let mut blocks = empty_blocks();
    for index in 0..count
        invariant
            count == actions@.len(),
            model == actions.deep_view(),
            blocks.deep_view() == drop_blocks(model, index as nat),
    {
        assert(model[index as int] == actions@[index as int].deep_view());
        let failure = if index + 1 < count {
            cat2("cleanup_", decimal_usize(index + 1).as_str())
        } else {
            "rethrow".to_string()
        };
        let last = if index + 1 < count {
            jump(cat2("drop_", decimal_usize(index + 1).as_str()).as_str())
        } else {
            return_nothing()
        };
        let list = guard_action(&actions[index], failure.as_str(), last);
        put_block(cat2("drop_", decimal_usize(index).as_str()).as_str(), &list, &mut blocks);
    }
    for index in 1..count
        invariant
            count == actions@.len(),
            model == actions.deep_view(),
            blocks.deep_view() == cleanup_blocks(model, index as nat),
    {
        assert(model[index as int] == actions@[index as int].deep_view());
        let last = if index + 1 < count {
            jump(cat2("cleanup_", decimal_usize(index + 1).as_str()).as_str())
        } else {
            rethrow()
        };
        let list = guard_action(&actions[index], "abort", last);
        put_block(cat2("cleanup_", decimal_usize(index).as_str()).as_str(), &list, &mut blocks);
    }
    let mut code = Code::new(0);
    code.push(rethrow());
    assert(code.deep_view().instructions =~= seq![rethrows()]);
    put_block("rethrow", &code.into_instructions(), &mut blocks);
    put_block("abort", &make_abort_block(), &mut blocks);
    CodeBlock { entry: "drop_0".to_string(), basic_blocks: blocks }
}

/// Actions with one more.
pub open spec fn action_appended(
    action: Seq<InstructionModel>,
    lists: Seq<Seq<InstructionModel>>,
) -> Seq<Seq<InstructionModel>> {
    lists.push(action)
}

/// Adds an action.
pub fn append_action(action: Vec<Instruction>, lists: &mut Vec<Vec<Instruction>>)
    ensures
        final(lists).deep_view() == action_appended(action.deep_view(), old(lists).deep_view()),
{
    let ghost before = lists.deep_view();
    let ghost model = action.deep_view();
    lists.push(action);
    assert(lists.deep_view() =~= action_appended(model, before));
}

/// No actions.
pub open spec fn no_actions() -> Seq<Seq<InstructionModel>> {
    Seq::empty()
}

/// No actions.
pub fn empty_actions() -> (r: Vec<Vec<Instruction>>)
    ensures
        r.deep_view() == no_actions(),
{
    let r: Vec<Vec<Instruction>> = Vec::new();
    assert(r.deep_view() =~= no_actions());
    r
}

/// The action that drops one part of a value, which stands in a field of its class.
#[verifier::opaque]
pub open spec fn part_drop(
    ty: RustType,
    value: OperandModel,
    field_name: Text,
    owner_class: Text,
    temp: Text,
    lists: Seq<Seq<InstructionModel>>,
) -> Seq<Seq<InstructionModel>> {
    let code = empty_code(0);
    if has_value(lowered(ty)) {
        let code = emit(code, reads_field(temp, value, field_name, lowered(ty), owner_class));
        let code = value_drop(ty, variable(temp, lowered(ty)), temp, code);
        let action = code.instructions;
        let lists = action_appended(action, lists);
        lists
    } else {
        let code = value_drop(ty, unit_value(), temp, code);
        let action = code.instructions;
        let lists = action_appended(action, lists);
        lists
    }
}

/// Makes the action that drops one part of a value.
pub fn push_part_drop(
    ty: &RustType,
    value: &Operand,
    field_name: &str,
    owner_class: &str,
    temp: &str,
    lists: &mut Vec<Vec<Instruction>>,
)
    ensures
        final(lists).deep_view() == part_drop(
            *ty,
            value.deep_view(),
            field_name@,
            owner_class@,
            temp@,
            old(lists).deep_view(),
        ),
{
    proof {
        reveal(part_drop);
    }
    let mut code = Code::new(0);
    if Type::has_jvm_value(&RustType::jvm_type(ty)) {
        code.push(field_read(temp, value, field_name, &RustType::jvm_type(ty), owner_class));
        emit_managed_value_drop(ty, &operand_var(temp, &RustType::jvm_type(ty)), temp, &mut code);
        let action = code.into_instructions();
        append_action(action, lists);
    } else {
        emit_managed_value_drop(ty, &unit_operand(), temp, &mut code);
        let action = code.into_instructions();
        append_action(action, lists);
    }
}

/// The actions that drop the fields from one on; what stands in front of the names of their
/// temporaries is given.
pub open spec fn field_drops(
    fields: Seq<Field>,
    names: SlotNames,
    value: OperandModel,
    owner_class: Text,
    temp_prefix: Text,
    from: nat,
    lists: Seq<Seq<InstructionModel>>,
) -> Seq<Seq<InstructionModel>>
    decreases fields, 0nat, fields.len() - from,
{
    if from >= fields.len() {
        lists
    } else {
        let item = fields[from as int];
        if item.ty.needs_drop {
            let lists = part_drop(
                item.ty,
                value,
                (slot_name(names, (from as usize) as nat, item)),
                owner_class,
                (temp_prefix + (decimal_text((from as usize) as nat))),
                lists,
            );
            field_drops(fields, names, value, owner_class, temp_prefix, from + 1, lists)
        } else {
            field_drops(fields, names, value, owner_class, temp_prefix, from + 1, lists)
        }
    }
}

/// Makes the actions that drop the fields of a value.
pub fn push_field_drops(
    fields: &Vec<Field>,
    names: SlotNames,
    value: &Operand,
    owner_class: &str,
    temp_prefix: &str,
    lists: &mut Vec<Vec<Instruction>>,
)
    ensures
        final(lists).deep_view() == field_drops(
            fields@,
            names,
            value.deep_view(),
            owner_class@,
            temp_prefix@,
            0,
            old(lists).deep_view(),
        ),
{
    let ghost start = field_drops(
            fields@,
            names,
            value.deep_view(),
            owner_class@,
            temp_prefix@,
            0,
            lists.deep_view(),
        );
    for i in 0..fields.len()
        invariant
            field_drops(
                fields@,
                names,
                value.deep_view(),
                owner_class@,
                temp_prefix@,
                i as nat,
                lists.deep_view(),
            ) == start,
    {
        let item = &fields[i];
        if item.ty.needs_drop {
            push_part_drop(
                &item.ty,
                value,
                name_slot(names, i, item).as_str(),
                owner_class,
                cat2(temp_prefix, decimal_usize(i).as_str()).as_str(),
                lists,
            );
        } else {

        }
    }
}

/// The action that runs the destructor of a type.
#[verifier::opaque]
pub open spec fn destructor_drop(
    class_name: Text,
    value: OperandModel,
    value_ty: TypeModel,
    lists: Seq<Seq<InstructionModel>>,
) -> Seq<Seq<InstructionModel>> {
    let code = empty_code(0);
    let code = emit(
        code,
        runs_static(
            class_name,
            "drop"@,
            static_method(params1("self"@, value_ty), Type::Void),
            args1(value),
        ),
    );
    let action = code.instructions;
    let lists = action_appended(action, lists);
    lists
}

/// Makes the action that runs the destructor of a type.
pub fn push_destructor(
    class_name: &str,
    value: &Operand,
    value_ty: &Type,
    lists: &mut Vec<Vec<Instruction>>,
)
    ensures
        final(lists).deep_view() == destructor_drop(
            class_name@,
            value.deep_view(),
            value_ty.deep_view(),
            old(lists).deep_view(),
        ),
{
    proof {
        reveal(destructor_drop);
    }
    let mut code = Code::new(0);
    code.push(
        static_run(
            class_name,
            "drop",
            &static_signature(&make_params1("self", value_ty), &Type::Void),
            &make_args1(value),
        ),
    );
    let action = code.into_instructions();
    append_action(action, lists);
}

/// Whether a type is a class whose first field is the next carrier of a pointer, and so on, a
/// number of times.
pub open spec fn carries_pointer(ty: RustType, depth: nat) -> bool
    decreases ty,
{
    depth == 0 || match ty.kind {
        TypeKind::Adt(adt) => {
            &&& class_name_of(lowered(ty)) is Some
            &&& adt.variants@.len() > 0
            &&& adt.variants@[0].fields@.len() > 0
            &&& carries_pointer(adt.variants@[0].fields@[0].ty, (depth - 1) as nat)
        },
        _ => false,
    }
}

/// The first field of a struct.
pub open spec fn first_field(adt: Adt) -> Field {
    adt.variants@[0].fields@[0]
}

/// The first field of a struct.
pub fn first_field_of(adt: &Adt) -> (r: &Field)
    requires
        adt.variants@.len() > 0,
        adt.variants@[0].fields@.len() > 0,
    ensures
        *r == first_field(*adt),
{
    &adt.variants[0].fields[0]
}

/// The class of a type, or no name.
pub open spec fn class_text(ty: TypeModel) -> Text {
    match class_name_of(ty) {
        Some(name) => name,
        None => ""@,
    }
}

/// The class of a type, or no name.
pub fn class_text_of(ty: &Type) -> (r: String)
    ensures
        r@ == class_text(ty.deep_view()),
{
    match ty.get_class_name() {
        Some(name) => name,
        None => "".to_string(),
    }
}

/// The pointer of a box: three fields deep, each read from the one before.
pub open spec fn box_pointer(
    ty: RustType,
    pointer: OperandModel,
    temp_prefix: Text,
    depth: usize,
    code: CodeModel,
) -> (CodeModel, OperandModel)
    decreases ty, 0nat,
{
    if depth >= 3 {
        (code, pointer)
    } else {
        match ty.kind {
            TypeKind::Adt(adt) => {
                if has_first_field(adt) {
                    let dest = (temp_prefix + "_box_pointer_"@ + (decimal_text(depth as nat)));
                    let code = emit(
                        code,
                        reads_field(
                            dest,
                            pointer,
                            first_field(adt).name@,
                            lowered(first_field(adt).ty),
                            class_text(lowered(ty)),
                        ),
                    );
                    box_pointer(
                        first_field(adt).ty,
                        variable(dest, lowered(first_field(adt).ty)),
                        temp_prefix,
                        offset_sum(depth, 1),
                        code,
                    )
                } else {
                    (code, pointer)
                }
            },
            _ => {
                (code, pointer)
            },
        }
    }
}

/// Reads the pointer of a box through its carriers.
pub fn emit_box_pointer(
    ty: &RustType,
    pointer: &Operand,
    temp_prefix: &str,
    depth: usize,
    code: &mut Code,
) -> (r: Operand)
    requires
        depth <= 3, carries_pointer(*ty, (3 - depth) as nat),
    ensures
        (final(code).deep_view(), r.deep_view()) == box_pointer(
            *ty,
            pointer.deep_view(),
            temp_prefix@,
            depth,
            old(code).deep_view(),
        ),
    decreases ty,
{
    if depth >= 3 {
        pointer.dup()
    } else {
        match &ty.kind {
            TypeKind::Adt(adt) => {
                if has_some_field(adt) {
                    let dest = cat3(temp_prefix, "_box_pointer_", decimal_usize(depth).as_str());
                    code.push(
                        field_read(
                            dest.as_str(),
                            pointer,
                            first_field_of(adt).name.as_str(),
                            &RustType::jvm_type(&first_field_of(adt).ty),
                            class_text_of(&RustType::jvm_type(ty)).as_str(),
                        ),
                    );
                    emit_box_pointer(
                        &first_field_of(adt).ty,
                        &operand_var(dest.as_str(), &RustType::jvm_type(&first_field_of(adt).ty)),
                        temp_prefix,
                        add_offsets(depth, 1),
                        code,
                    )
                } else {
                    pointer.dup()
                }
            },
            _ => {
                pointer.dup()
            },
        }
    }
}

/// Whether a type has a variant with a field.
pub open spec fn has_first_field(adt: Adt) -> bool {
    adt.variants@.len() > 0 && adt.variants@[0].fields@.len() > 0
}

/// Whether a type has a variant with a field.
pub fn has_some_field(adt: &Adt) -> (r: bool)
    ensures
        r == has_first_field(*adt),
{
    adt.variants.len() > 0 && adt.variants[0].fields.len() > 0
}

/// The action that drops the value behind a box: the pointer is read through its carriers, and
/// trait objects, slices and other values are each dropped in their way.
#[verifier::opaque]
pub open spec fn boxed_drop(
    ty: RustType,
    pointee: RustType,
    value: OperandModel,
    slice_drop: Seq<InstructionModel>,
    temp_prefix: Text,
    lists: Seq<Seq<InstructionModel>>,
) -> Seq<Seq<InstructionModel>> {
    let code = empty_code(0);
    let (code, pointer) = box_pointer(ty, value, temp_prefix, 0, code);
    match pointee.kind {
        TypeKind::Dynamic(_) => {
            let code = emit(
                code,
                runs_static(
                    POINTER_CLASS@,
                    "dropTraitPointer"@,
                    static_method(params1("pointer"@, object_class()), Type::Void),
                    args1(pointer),
                ),
            );
            let action = code.instructions;
            let lists = action_appended(action, lists);
            lists
        },
        TypeKind::Slice(_) => {
            let code = emit_all(code, slice_drop);
            let action = code.instructions;
            let lists = action_appended(action, lists);
            lists
        },
        _ => {
            let dest = (temp_prefix + "_box_pointee"@);
            let code = emit(
                code,
                calls_virtual(
                    dest,
                    POINTER_CLASS@,
                    "getObject"@,
                    instance_method(params1("self"@, operand_type(pointer)), object_class()),
                    args0(),
                    pointer,
                ),
            );
            let code = value_drop(pointee, variable(dest, object_class()), dest, code);
            let action = code.instructions;
            let lists = action_appended(action, lists);
            lists
        },
    }
}

/// Makes the action that drops the value behind a box.
pub fn push_boxed_drop(
    ty: &RustType,
    pointee: &RustType,
    value: &Operand,
    slice_drop: &Vec<Instruction>,
    temp_prefix: &str,
    lists: &mut Vec<Vec<Instruction>>,
)
    requires
        carries_pointer(*ty, 3),
    ensures
        final(lists).deep_view() == boxed_drop(
            *ty,
            *pointee,
            value.deep_view(),
            slice_drop.deep_view(),
            temp_prefix@,
            old(lists).deep_view(),
        ),
{
    proof {
        reveal(boxed_drop);
    }
    let mut code = Code::new(0);
    let pointer = emit_box_pointer(ty, value, temp_prefix, 0, &mut code);
    match &pointee.kind {
        TypeKind::Dynamic(_) => {
            code.push(
                static_run(
                    POINTER_CLASS,
                    "dropTraitPointer",
                    &static_signature(&make_params1("pointer", &object_type()), &Type::Void),
                    &make_args1(&pointer),
                ),
            );
            let action = code.into_instructions();
            append_action(action, lists);
        },
        TypeKind::Slice(_) => {
            append_list(slice_drop, &mut code);
            let action = code.into_instructions();
            append_action(action, lists);
        },
        _ => {
            let dest = cat2(temp_prefix, "_box_pointee");
            code.push(
                virtual_call(
                    dest.as_str(),
                    POINTER_CLASS,
                    "getObject",
                    &instance_signature(
                        &make_params1("self", &Operand::get_type(&pointer)),
                        &object_type(),
                    ),
                    &make_args0(),
                    &pointer,
                ),
            );
            emit_managed_value_drop(
                pointee,
                &operand_var(dest.as_str(), &object_type()),
                dest.as_str(),
                &mut code,
            );
            let action = code.into_instructions();
            append_action(action, lists);
        },
    }
}

/// The type that a box holds.
pub open spec fn boxed_type(adt: Adt) -> Option<RustType> {
    if adt.arguments@.len() > 0 {
        match adt.arguments@[0] {
            GenericArg::Type(ty) => Some(ty),
            _ => None,
        }
    } else {
        None
    }
}

/// The type that a box holds.
pub fn boxed_type_of(adt: &Adt) -> (r: Option<&RustType>)
    ensures
        (match r {
            Some(ty) => Some(*ty),
            None => None,
        }) == boxed_type(*adt),
{
    if adt.arguments.len() > 0 {
        match &adt.arguments[0] {
            GenericArg::Type(ty) => Some(ty),
            _ => None,
        }
    } else {
        None
    }
}

/// Whether a field has to be dropped and is read from its class for that.
pub open spec fn reads_dropped_field(fields: Seq<Field>) -> bool {
    exists|i: int|
        0 <= i < fields.len() && (#[trigger] fields[i]).ty.needs_drop && has_value(
            lowered(fields[i].ty),
        )
}

/// Whether what dropping a value names is there: the class of a type with a destructor or with
/// fields to drop, and the carriers of a pointer in a box.
pub open spec fn is_droppable(ty: RustType) -> bool {
    match ty.kind {
        TypeKind::Adt(adt) => {
            &&& adt.shape is Struct ==> adt.variants@.len() > 0
            &&& adt.has_destructor || adt.shape is Enum || (adt.shape is Struct
                && reads_dropped_field(adt.variants@[0].fields@)) ==> class_name_of(lowered(ty))
                is Some
            &&& adt.shape is Struct && adt.role is OwnedBox ==> match boxed_type(adt) {
                Some(pointee) => pointee.needs_drop ==> carries_pointer(ty, 3),
                None => false,
            }
        },
        TypeKind::Tuple { elements, .. } => reads_dropped_field(elements@) ==> class_name_of(
            lowered(ty),
        ) is Some,
        TypeKind::Closure { captures, .. } => reads_dropped_field(captures@) ==> class_name_of(
            lowered(ty),
        ) is Some,
        _ => true,
    }
}

/// The action that drops what a box holds, if that has to be dropped.
#[verifier::opaque]
pub open spec fn owned_drop(
    ty: RustType,
    adt: Adt,
    value: OperandModel,
    slice_drop: Seq<InstructionModel>,
    temp_prefix: Text,
    lists: Seq<Seq<InstructionModel>>,
) -> Seq<Seq<InstructionModel>> {
    match adt.role {
        Role::OwnedBox => {
            match boxed_type(adt) {
                Some(pointee) => {
                    if pointee.needs_drop {
                        let lists = boxed_drop(ty, pointee, value, slice_drop, temp_prefix, lists);
                        lists
                    } else {
                        lists
                    }
                },
                None => {
                    lists
                },
            }
        },
        _ => {
            lists
        },
    }
}

/// Makes the action that drops what a box holds.
pub fn push_owned_drop(
    ty: &RustType,
    adt: &Adt,
    value: &Operand,
    slice_drop: &Vec<Instruction>,
    temp_prefix: &str,
    lists: &mut Vec<Vec<Instruction>>,
)
    requires
        is_droppable(*ty), ty.kind == TypeKind::Adt(*adt), adt.shape is Struct,
    ensures
        final(lists).deep_view() == owned_drop(
            *ty,
            *adt,
            value.deep_view(),
            slice_drop.deep_view(),
            temp_prefix@,
            old(lists).deep_view(),
        ),
{
    proof {
        reveal(owned_drop);
    }
    match &adt.role {
        Role::OwnedBox => {
            match &boxed_type_of(adt) {
                Some(pointee) => {
                    if pointee.needs_drop {
                        push_boxed_drop(ty, pointee, value, slice_drop, temp_prefix, lists);
                    } else {

                    }
                },
                None => {

                },
            }
        },
        _ => {

        },
    }
}

/// The action that runs the destructor of a type, if it has one.
#[verifier::opaque]
pub open spec fn destructor_action(
    ty: RustType,
    adt: Adt,
    value: OperandModel,
    lists: Seq<Seq<InstructionModel>>,
) -> Seq<Seq<InstructionModel>> {
    if adt.has_destructor {
        let lists = destructor_drop(class_text(lowered(ty)), value, lowered(ty), lists);
        lists
    } else {
        lists
    }
}

/// Makes the action that runs the destructor of a type.
pub fn push_destructor_action(
    ty: &RustType,
    adt: &Adt,
    value: &Operand,
    lists: &mut Vec<Vec<Instruction>>,
)
    ensures
        final(lists).deep_view() == destructor_action(
            *ty,
            *adt,
            value.deep_view(),
            old(lists).deep_view(),
        ),
{
    proof {
        reveal(destructor_action);
    }
    if adt.has_destructor {
        push_destructor(
            class_text_of(&RustType::jvm_type(ty)).as_str(),
            value,
            &RustType::jvm_type(ty),
            lists,
        );
    } else {

    }
}

/// The action that drops the fields of an enum through a method of its class.
#[verifier::opaque]
pub open spec fn enum_fields_drop(
    class_name: Text,
    value: OperandModel,
    value_ty: TypeModel,
    lists: Seq<Seq<InstructionModel>>,
) -> Seq<Seq<InstructionModel>> {
    let code = empty_code(0);
    let code = emit(
        code,
        runs_virtual(
            class_name,
            ENUM_DROP_FIELDS_METHOD@,
            instance_method(params1("self"@, value_ty), Type::Void),
            args0(),
            value,
        ),
    );
    let action = code.instructions;
    let lists = action_appended(action, lists);
    lists
}

/// Makes the action that drops the fields of an enum.
pub fn push_enum_fields_drop(
    class_name: &str,
    value: &Operand,
    value_ty: &Type,
    lists: &mut Vec<Vec<Instruction>>,
)
    ensures
        final(lists).deep_view() == enum_fields_drop(
            class_name@,
            value.deep_view(),
            value_ty.deep_view(),
            old(lists).deep_view(),
        ),
{
    proof {
        reveal(enum_fields_drop);
    }
    let mut code = Code::new(0);
    code.push(
        virtual_run(
            class_name,
            ENUM_DROP_FIELDS_METHOD,
            &instance_signature(&make_params1("self", value_ty), &Type::Void),
            &make_args0(),
            value,
        ),
    );
    let action = code.into_instructions();
    append_action(action, lists);
}

/// The actions that drop a value, one for each part that has to be dropped: what a box holds, the
/// value itself through its destructor, and its fields.
#[verifier::opaque]
pub open spec fn drop_actions(
    ty: RustType,
    value: OperandModel,
    slice_drop: Seq<InstructionModel>,
    temp_prefix: Text,
    lists: Seq<Seq<InstructionModel>>,
) -> Seq<Seq<InstructionModel>> {
    match ty.kind {
        TypeKind::Adt(adt) => {
            match adt.shape {
                Shape::Struct => {
                    let lists = owned_drop(ty, adt, value, slice_drop, temp_prefix, lists);
                    let lists = destructor_action(ty, adt, value, lists);
                    let lists = field_drops(
                        (adt.variants@[0]).fields@,
                        SlotNames::Declared,
                        value,
                        class_text(lowered(ty)),
                        (temp_prefix + "_field_"@),
                        0,
                        lists,
                    );
                    lists
                },
                Shape::Enum => {
                    let lists = destructor_action(ty, adt, value, lists);
                    let lists = enum_fields_drop(
                        class_text(lowered(ty)),
                        value,
                        lowered(ty),
                        lists,
                    );
                    lists
                },
                Shape::Union => {
                    lists
                },
            }
        },
        TypeKind::Tuple { elements, .. } => {
            let lists = field_drops(
                elements@,
                SlotNames::Elements,
                value,
                class_text(lowered(ty)),
                (temp_prefix + "_tuple_"@),
                0,
                lists,
            );
            lists
        },
        TypeKind::Closure { captures, .. } => {
            let lists = field_drops(
                captures@,
                SlotNames::Captures,
                value,
                class_text(lowered(ty)),
                (temp_prefix + "_capture_"@),
                0,
                lists,
            );
            lists
        },
        TypeKind::Array { .. } => {
            let lists = whole_drop(ty, value, temp_prefix, lists);
            lists
        },
        TypeKind::Dynamic(_) => {
            let lists = whole_drop(ty, value, temp_prefix, lists);
            lists
        },
        _ => {
            lists
        },
    }
}

/// Makes the actions that drop a value.
pub fn push_drop_actions(
    ty: &RustType,
    value: &Operand,
    slice_drop: &Vec<Instruction>,
    temp_prefix: &str,
    lists: &mut Vec<Vec<Instruction>>,
)
    requires
        is_droppable(*ty),
    ensures
        final(lists).deep_view() == drop_actions(
            *ty,
            value.deep_view(),
            slice_drop.deep_view(),
            temp_prefix@,
            old(lists).deep_view(),
        ),
{
    proof {
        reveal(drop_actions);
    }
    match &ty.kind {
        TypeKind::Adt(adt) => {
            match &adt.shape {
                Shape::Struct => {
                    push_owned_drop(ty, adt, value, slice_drop, temp_prefix, lists);
                    push_destructor_action(ty, adt, value, lists);
                    push_field_drops(
                        &first_variant_of(adt).fields,
                        SlotNames::Declared,
                        value,
                        class_text_of(&RustType::jvm_type(ty)).as_str(),
                        cat2(temp_prefix, "_field_").as_str(),
                        lists,
                    );
                },
                Shape::Enum => {
                    push_destructor_action(ty, adt, value, lists);
                    push_enum_fields_drop(
                        class_text_of(&RustType::jvm_type(ty)).as_str(),
                        value,
                        &RustType::jvm_type(ty),
                        lists,
                    );
                },
                Shape::Union => {

                },
            }
        },
        TypeKind::Tuple { elements, .. } => {
            push_field_drops(
                elements,
                SlotNames::Elements,
                value,
                class_text_of(&RustType::jvm_type(ty)).as_str(),
                cat2(temp_prefix, "_tuple_").as_str(),
                lists,
            );
        },
        TypeKind::Closure { captures, .. } => {
            push_field_drops(
                captures,
                SlotNames::Captures,
                value,
                class_text_of(&RustType::jvm_type(ty)).as_str(),
                cat2(temp_prefix, "_capture_").as_str(),
                lists,
            );
        },
        TypeKind::Array { .. } => {
            push_whole_drop(ty, value, temp_prefix, lists);
        },
        TypeKind::Dynamic(_) => {
            push_whole_drop(ty, value, temp_prefix, lists);
        },
        _ => {

        },
    }
}

/// The action that drops a value as a whole.
#[verifier::opaque]
pub open spec fn whole_drop(
    ty: RustType,
    value: OperandModel,
    temp_prefix: Text,
    lists: Seq<Seq<InstructionModel>>,
) -> Seq<Seq<InstructionModel>> {
    let code = empty_code(0);
    let code = value_drop(ty, value, temp_prefix, code);
    let action = code.instructions;
    let lists = action_appended(action, lists);
    lists
}

/// Makes the action that drops a value as a whole.
pub fn push_whole_drop(
    ty: &RustType,
    value: &Operand,
    temp_prefix: &str,
    lists: &mut Vec<Vec<Instruction>>,
)
    ensures
        final(lists).deep_view() == whole_drop(
            *ty,
            value.deep_view(),
            temp_prefix@,
            old(lists).deep_view(),
        ),
{
    proof {
        reveal(whole_drop);
    }
    let mut code = Code::new(0);
    emit_managed_value_drop(ty, value, temp_prefix, &mut code);
    let action = code.into_instructions();
    append_action(action, lists);
}

/// Actions without the first one.
pub open spec fn first_removed(
    lists: Seq<Seq<InstructionModel>>,
) -> Seq<Seq<InstructionModel>> {
    lists.skip(1)
}

fn remove_first(lists: &mut Vec<Vec<Instruction>>)
    requires
        old(lists)@.len() > 0,
    ensures
        final(lists).deep_view() == first_removed(old(lists).deep_view()),
{
    let ghost before = lists.deep_view();
    let first = lists.remove(0);
    assert(lists.deep_view() =~= first_removed(before));
}

/// Dropping the parts of a value only adds actions.
pub proof fn field_drops_add_actions(
    fields: Seq<Field>,
    names: SlotNames,
    value: OperandModel,
    owner_class: Text,
    temp_prefix: Text,
    from: nat,
    lists: Seq<Seq<InstructionModel>>,
)
    ensures
        lists.len() <= field_drops(
            fields,
            names,
            value,
            owner_class,
            temp_prefix,
            from,
            lists,
        ).len(),
    decreases fields.len() - from,
{
    reveal(part_drop);
    if from < fields.len() {
        let item = fields[from as int];
        if item.ty.needs_drop {
            let name = slot_name(names, (from as usize) as nat, item);
            let temp = temp_prefix + decimal_text((from as usize) as nat);
            field_drops_add_actions(
                fields,
                names,
                value,
                owner_class,
                temp_prefix,
                from + 1,
                part_drop(item.ty, value, name, owner_class, temp, lists),
            );
        } else {
            field_drops_add_actions(
                fields,
                names,
                value,
                owner_class,
                temp_prefix,
                from + 1,
                lists,
            );
        }
    }
}

/// A type with a destructor has at least one action: its destructor.
pub proof fn destructor_is_an_action(
    ty: RustType,
    value: OperandModel,
    slice_drop: Seq<InstructionModel>,
    temp_prefix: Text,
)
    requires
        ty.kind is Adt,
        ty.kind->Adt_0.has_destructor,
        !(ty.kind->Adt_0.shape is Union),
    ensures
        drop_actions(ty, value, slice_drop, temp_prefix, no_actions()).len() > 0,
{
    reveal(drop_actions);
    reveal(owned_drop);
    reveal(boxed_drop);
    reveal(destructor_action);
    reveal(destructor_drop);
    reveal(enum_fields_drop);
    let adt = ty.kind->Adt_0;
    if adt.shape is Struct {
        let owned = owned_drop(ty, adt, value, slice_drop, temp_prefix, no_actions());
        let lists = destructor_action(ty, adt, value, owned);
        field_drops_add_actions(
            adt.variants@[0].fields@,
            SlotNames::Declared,
            value,
            class_text(lowered(ty)),
            temp_prefix + "_field_"@,
            0,
            lists,
        );
    }
}

/// The method that drops the fields of a struct; its destructor, the first action, is left out.
#[verifier::opaque]
pub open spec fn struct_drop_fields(
    ty: RustType,
    class_name: Text,
    slice_drop: Seq<InstructionModel>,
) -> FunctionModel {
    let self_ty = class(class_name);
    let lists = no_actions();
    let lists = drop_actions(
        ty,
        variable("_1"@, self_ty),
        slice_drop,
        "_managed_drop_fields"@,
        lists,
    );
    if is_destructed(ty) {
        let lists = first_removed(lists);
        drop_fields_method(self_ty, lists)
    } else {
        drop_fields_method(self_ty, lists)
    }
}

/// Makes the method that drops the fields of a struct.
pub fn make_struct_drop_fields(
    ty: &RustType,
    class_name: &str,
    slice_drop: &Vec<Instruction>,
) -> (r: Function)
    requires
        is_droppable(*ty), ty.kind is Adt, !(ty.kind->Adt_0.shape is Union),
    ensures
        r.deep_view() == struct_drop_fields(*ty, class_name@, slice_drop.deep_view()),
{
    proof {
        reveal(struct_drop_fields);
    }
    let self_ty = class_type(class_name);
    let mut lists = empty_actions();
    push_drop_actions(
        ty,
        &operand_var("_1", &self_ty),
        slice_drop,
        "_managed_drop_fields",
        &mut lists,
    );
    if has_destructor(ty) {
        proof {
            destructor_is_an_action(
                *ty,
                variable("_1"@, class(class_name@)),
                slice_drop.deep_view(),
                "_managed_drop_fields"@,
            );
        }
        remove_first(&mut lists);
        make_drop_fields_method(&self_ty, &lists)
    } else {
        make_drop_fields_method(&self_ty, &lists)
    }
}

/// Whether a type has a destructor.
pub open spec fn is_destructed(ty: RustType) -> bool {
    match ty.kind {
        TypeKind::Adt(adt) => adt.has_destructor,
        _ => false,
    }
}

fn has_destructor(ty: &RustType) -> (r: bool)
    ensures
        r == is_destructed(*ty),
{
    match &ty.kind {
        TypeKind::Adt(adt) => adt.has_destructor,
        _ => false,
    }
}

/// The method that drops the fields of a value through actions.
pub open spec fn drop_fields_method(
    self_ty: TypeModel,
    actions: Seq<Seq<InstructionModel>>,
) -> FunctionModel {
    plain_function(
        ENUM_DROP_FIELDS_METHOD@,
        instance_method(params1("self"@, self_ty), Type::Void),
        safe_drop_body(actions),
    )
}

fn make_drop_fields_method(self_ty: &Type, actions: &Vec<Vec<Instruction>>) -> (r: Function)
    ensures
        r.deep_view() == drop_fields_method(self_ty.deep_view(), actions.deep_view()),
{
    make_function(
        ENUM_DROP_FIELDS_METHOD,
        instance_signature(&make_params1("self", self_ty), &Type::Void),
        cleanup_safe_drop_body(actions),
    )
}

/// The method that drops a value: the code that is given for it, and the end.
#[verifier::opaque]
pub open spec fn drop_glue(class_name: Text, drop_code: Seq<InstructionModel>) -> FunctionModel {
    let code = empty_code(0);
    let code = emit_all(code, drop_code);
    let code = emit(code, returns_nothing());
    let list = code.instructions;
    plain_function(
        MANAGED_DROP_METHOD@,
        instance_method(params1("self"@, class(class_name)), Type::Void),
        single_block(list),
    )
}

/// Makes the method that drops a value.
pub fn managed_drop_glue_function(class_name: &str, drop_code: &Vec<Instruction>) -> (r: Function)
    ensures
        r.deep_view() == drop_glue(class_name@, drop_code.deep_view()),
{
    proof {
        reveal(drop_glue);
    }
    let mut code = Code::new(0);
    append_list(drop_code, &mut code);
    code.push(return_nothing());
    let list = code.into_instructions();
    make_function(
        MANAGED_DROP_METHOD,
        instance_signature(&make_params1("self", &class_type(class_name)), &Type::Void),
        simple_body(&list),
    )
}

/// The actions that drop the fields of a variant from one on.
pub open spec fn variant_field_drops(
    fields: Seq<Field>,
    slots: Seq<Option<SlotModel>>,
    value: OperandModel,
    class_name: Text,
    from: nat,
    lists: Seq<Seq<InstructionModel>>,
) -> Seq<Seq<InstructionModel>>
    decreases fields, 0nat, fields.len() - from,
{
    if from >= fields.len() {
        lists
    } else {
        let item = fields[from as int];
        if item.ty.needs_drop {
            let lists = slot_drop(item.ty, slots, (from as usize), value, class_name, lists);
            variant_field_drops(fields, slots, value, class_name, from + 1, lists)
        } else {
            variant_field_drops(fields, slots, value, class_name, from + 1, lists)
        }
    }
}

/// Makes the actions that drop the fields of a variant.
pub fn push_variant_field_drops(
    fields: &Vec<Field>,
    slots: &Vec<Option<Slot>>,
    value: &Operand,
    class_name: &str,
    lists: &mut Vec<Vec<Instruction>>,
)
    ensures
        final(lists).deep_view() == variant_field_drops(
            fields@,
            slots.deep_view(),
            value.deep_view(),
            class_name@,
            0,
            old(lists).deep_view(),
        ),
{
    let ghost start = variant_field_drops(
            fields@,
            slots.deep_view(),
            value.deep_view(),
            class_name@,
            0,
            lists.deep_view(),
        );
    for i in 0..fields.len()
        invariant
            variant_field_drops(
                fields@,
                slots.deep_view(),
                value.deep_view(),
                class_name@,
                i as nat,
                lists.deep_view(),
            ) == start,
    {
        let item = &fields[i];
        if item.ty.needs_drop {
            push_slot_drop(&item.ty, slots, i, value, class_name, lists);
        } else {

        }
    }
}

/// The action that drops a field of a variant.
#[verifier::opaque]
pub open spec fn slot_drop(
    ty: RustType,
    slots: Seq<Option<SlotModel>>,
    index: usize,
    value: OperandModel,
    class_name: Text,
    lists: Seq<Seq<InstructionModel>>,
) -> Seq<Seq<InstructionModel>> {
    let dest = ("_drop_field_"@ + (decimal_text(index as nat)));
    let code = empty_code(0);
    match slot_at(slots, index) {
        Some(slot) => {
            let code = emit(code, reads_field(dest, value, slot.name, slot.ty, class_name));
            let code = value_drop(ty, variable(dest, slot.ty), dest, code);
            let action = code.instructions;
            let lists = action_appended(action, lists);
            lists
        },
        None => {
            let code = value_drop(ty, unit_value(), dest, code);
            let action = code.instructions;
            let lists = action_appended(action, lists);
            lists
        },
    }
}

/// Makes the action that drops a field of a variant.
pub fn push_slot_drop(
    ty: &RustType,
    slots: &Vec<Option<Slot>>,
    index: usize,
    value: &Operand,
    class_name: &str,
    lists: &mut Vec<Vec<Instruction>>,
)
    ensures
        final(lists).deep_view() == slot_drop(
            *ty,
            slots.deep_view(),
            index,
            value.deep_view(),
            class_name@,
            old(lists).deep_view(),
        ),
{
    proof {
        reveal(slot_drop);
    }
    let dest = cat2("_drop_field_", decimal_usize(index).as_str());
    let mut code = Code::new(0);
    match &get_slot(slots, index) {
        Some(slot) => {
            code.push(field_read(dest.as_str(), value, slot.name.as_str(), &slot.ty, class_name));
            emit_managed_value_drop(
                ty,
                &operand_var(dest.as_str(), &slot.ty),
                dest.as_str(),
                &mut code,
            );
            let action = code.into_instructions();
            append_action(action, lists);
        },
        None => {
            emit_managed_value_drop(ty, &unit_operand(), dest.as_str(), &mut code);
            let action = code.into_instructions();
            append_action(action, lists);
        },
    }
}

/// The method that drops the fields of a variant.
#[verifier::opaque]
pub open spec fn variant_drop_fields(fields: Seq<Field>, class_name: Text) -> FunctionModel {
    let self_ty = class(class_name);
    let lists = no_actions();
    let lists = variant_field_drops(
        fields,
        slots_of_variant(fields),
        variable("_1"@, self_ty),
        class_name,
        0,
        lists,
    );
    drop_fields_method(self_ty, lists)
}

/// Makes the method that drops the fields of a variant.
pub fn enum_variant_drop_glue_function(fields: &Vec<Field>, class_name: &str) -> (r: Function)
    ensures
        r.deep_view() == variant_drop_fields(fields@, class_name@),
{
    proof {
        reveal(variant_drop_fields);
    }
    let self_ty = class_type(class_name);
    let mut lists = empty_actions();
    push_variant_field_drops(
        fields,
        &plan_variant_slots(fields),
        &operand_var("_1", &self_ty),
        class_name,
        &mut lists,
    );
    make_drop_fields_method(&self_ty, &lists)
}

/// Appends instructions.
pub fn append_list(list: &Vec<Instruction>, code: &mut Code)
    ensures
        final(code).deep_view() == emit_all(old(code).deep_view(), list.deep_view()),
{
    code.append(list);
}

} // verus!
