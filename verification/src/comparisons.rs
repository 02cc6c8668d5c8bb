//! The methods that compare values: which variant a value is, and whether two values are equal.
use crate::code::{Definitions, DefinitionsModel, decimal_usize};
use crate::codec::{is_pointer, is_pointer_type};
use crate::definitions::is_defined;
use crate::descriptor::{OBJECT_CLASS, POINTER_CLASS, UTF8_VIEW_CLASS, descriptor};
use crate::drop_glue::{class_text, class_text_of};
use crate::jvm_ops::{
    Condition, JvmMethod, JvmMethodModel, Kind, Op, OpModel, PUBLIC_FINAL, empty_ops, kind_of,
    kind_of_type, make_branch, make_check_cast, make_compare_double, make_compare_float,
    make_compare_long, make_get_field, make_goto, make_invoke_interface, make_invoke_static,
    make_invoke_virtual, make_load, make_member, make_method, make_push_int, make_return, member,
    method_with_ops, no_ops, op_branch, op_check_cast, op_compare_double, op_compare_float,
    op_compare_long, op_get_field, op_goto, op_invoke_interface, op_invoke_static,
    op_invoke_virtual, op_load, op_push_int, op_pushed, op_return, push_op,
};
use crate::oomir::{Duplicate, DataType, DataTypeModel, Text, Type, TypeModel, has_value};
use crate::text::{cat2, cat3, decimal_text};
use vstd::prelude::*;
use vstd::string::*;

verus! {

/// How two values of a type are compared.
#[derive(Debug, Clone, Copy, PartialEq, Eq, Structural)]
pub enum Comparison {
    Ints,
    Longs,
    Floats,
    Doubles,
    Texts,
    Addresses,
    AddressArrays,
    OwnClass,
    OwnInterface,
    Objects,
    Identity,
}

/// Whether a class or an interface has a method that compares values.
pub open spec fn has_equality(defs: DefinitionsModel, name: Text) -> bool {
    defs.dom().contains(name) && match defs[name] {
        DataTypeModel::Class { methods, .. } => methods.dom().contains("eq"@),
        DataTypeModel::Interface { methods } => methods.dom().contains("eq"@),
    }
}

/// Whether a class or an interface has a method that compares values.
pub fn has_generated_eq(defs: &Definitions, name: &str) -> (r: bool)
    ensures
        r == has_equality(defs.deep_view(), name@),
{
    match defs.get(name) {
        Some(DataType::Class { methods, .. }) => methods.contains_key("eq"),
        Some(DataType::Interface { methods }) => methods.contains_key("eq"),
        None => false,
    }
}

/// How two values of a type are compared.
pub open spec fn comparison_of(ty: TypeModel, defs: DefinitionsModel) -> Comparison {
    match ty {
        Type::Str => Comparison::Texts,
        Type::Pointer(_) => Comparison::Addresses,
        Type::Class(name) => if has_equality(defs, name) {
            Comparison::OwnClass
        } else {
            Comparison::Objects
        },
        Type::Interface(name) => if has_equality(defs, name) {
            Comparison::OwnInterface
        } else {
            Comparison::Objects
        },
        Type::Array(inner) => if is_pointer(*inner) {
            Comparison::AddressArrays
        } else {
            Comparison::Identity
        },
        _ => match kind_of(ty) {
            Kind::Int => Comparison::Ints,
            Kind::Long => Comparison::Longs,
            Kind::Float => Comparison::Floats,
            Kind::Double => Comparison::Doubles,
            _ => Comparison::Identity,
        },
    }
}

fn choose_comparison(ty: &Type, defs: &Definitions) -> (r: Comparison)
    ensures
        r == comparison_of(ty.deep_view(), defs.deep_view()),
{
    match ty {
        Type::Str => Comparison::Texts,
        Type::Pointer(_) => Comparison::Addresses,
        Type::Class(name) => if has_generated_eq(defs, name.as_str()) {
            Comparison::OwnClass
        } else {
            Comparison::Objects
        },
        Type::Interface(name) => if has_generated_eq(defs, name.as_str()) {
            Comparison::OwnInterface
        } else {
            Comparison::Objects
        },
        Type::Array(inner) => if is_pointer_type(inner) {
            Comparison::AddressArrays
        } else {
            Comparison::Identity
        },
        _ => match kind_of_type(ty) {
            Kind::Int => Comparison::Ints,
            Kind::Long => Comparison::Longs,
            Kind::Float => Comparison::Floats,
            Kind::Double => Comparison::Doubles,
            _ => Comparison::Identity,
        },
    }
}

/// No branches.
pub open spec fn no_fixups() -> Seq<usize> {
    Seq::empty()
}

/// No branches.
pub fn empty_fixups() -> (r: Vec<usize>)
    ensures
        r.deep_view() == no_fixups(),
{
    let r: Vec<usize> = Vec::new();
    assert(r.deep_view() =~= no_fixups());
    r
}

/// The branches whose target is not known, with the next instruction among them.
pub open spec fn fixup_marked(ops: Seq<OpModel>, fixups: Seq<usize>) -> Seq<usize> {
    fixups.push(ops.len() as usize)
}

fn mark_fixup(ops: &Vec<Op>, fixups: &mut Vec<usize>)
    ensures
        final(fixups).deep_view() == fixup_marked(ops.deep_view(), old(fixups).deep_view()),
{
    let ghost before = fixups.deep_view();
    fixups.push(ops.len());
    assert(fixups.deep_view() =~= before.push(ops@.len() as usize));
}

/// A branch that is taken when two values differ; its target is set later.
#[verifier::opaque]
pub open spec fn false_branch(
    condition: Condition,
    ops: Seq<OpModel>,
    fixups: Seq<usize>,
) -> (Seq<OpModel>, Seq<usize>) {
    let fixups = fixup_marked(ops, fixups);
    let ops = op_pushed(op_branch(condition, 0), ops);
    (ops, fixups)
}

/// Adds a branch that is taken when two values differ.
pub fn append_false_branch(condition: Condition, ops: &mut Vec<Op>, fixups: &mut Vec<usize>)
    ensures
        (
            final(ops).deep_view(),
            final(fixups).deep_view(),
        ) == false_branch(condition, old(ops).deep_view(), old(fixups).deep_view()),
{
    proof {
        reveal(false_branch);
    }
    mark_fixup(ops, fixups);
    push_op(make_branch(condition, 0), ops);
}

/// A branch that is taken when a test has failed.
#[verifier::opaque]
pub open spec fn false_check(ops: Seq<OpModel>, fixups: Seq<usize>) -> (Seq<OpModel>, Seq<usize>) {
    let (ops, fixups) = false_branch(Condition::IsZero, ops, fixups);
    (ops, fixups)
}

/// Adds a branch that is taken when a test has failed.
pub fn append_boolean_false_check(ops: &mut Vec<Op>, fixups: &mut Vec<usize>)
    ensures
        (
            final(ops).deep_view(),
            final(fixups).deep_view(),
        ) == false_check(old(ops).deep_view(), old(fixups).deep_view()),
{
    proof {
        reveal(false_check);
    }
    append_false_branch(Condition::IsZero, ops, fixups);
}

/// The field of both objects on the stack.
#[verifier::opaque]
pub open spec fn both_pushed(
    class_name: Text,
    field_name: Text,
    field_ty: TypeModel,
    ops: Seq<OpModel>,
) -> Seq<OpModel> {
    let ops = op_pushed(op_load(Kind::Reference, 0), ops);
    let ops = op_pushed(op_check_cast(class_name), ops);
    let ops = op_pushed(op_get_field(member(class_name, field_name, (descriptor(field_ty)))), ops);
    let ops = op_pushed(op_load(Kind::Reference, 1), ops);
    let ops = op_pushed(op_check_cast(class_name), ops);
    let ops = op_pushed(op_get_field(member(class_name, field_name, (descriptor(field_ty)))), ops);
    ops
}

/// Pushes a field of both objects.
pub fn emit_both_fields(class_name: &str, field_name: &str, field_ty: &Type, ops: &mut Vec<Op>)
    ensures
        final(ops).deep_view() == both_pushed(
            class_name@,
            field_name@,
            field_ty.deep_view(),
            old(ops).deep_view(),
        ),
{
    proof {
        reveal(both_pushed);
    }
    push_op(make_load(Kind::Reference, 0), ops);
    push_op(make_check_cast(class_name), ops);
    push_op(
        make_get_field(
            &make_member(class_name, field_name, Type::to_jvm_descriptor(field_ty).as_str()),
        ),
        ops,
    );
    push_op(make_load(Kind::Reference, 1), ops);
    push_op(make_check_cast(class_name), ops);
    push_op(
        make_get_field(
            &make_member(class_name, field_name, Type::to_jvm_descriptor(field_ty).as_str()),
        ),
        ops,
    );
}

/// The code that compares a field of both objects, and branches when it differs.
#[verifier::opaque]
pub open spec fn field_check(
    class_name: Text,
    field_name: Text,
    field_ty: TypeModel,
    defs: DefinitionsModel,
    ops: Seq<OpModel>,
    fixups: Seq<usize>,
) -> (Seq<OpModel>, Seq<usize>) {
    let ops = both_pushed(class_name, field_name, field_ty, ops);
    match comparison_of(field_ty, defs) {
        Comparison::Longs => {
            let ops = op_pushed(op_compare_long(), ops);
            let (ops, fixups) = false_branch(Condition::IsNotZero, ops, fixups);
            (ops, fixups)
        },
        Comparison::Floats => {
            let ops = op_pushed(op_compare_float(), ops);
            let (ops, fixups) = false_branch(Condition::IsNotZero, ops, fixups);
            (ops, fixups)
        },
        Comparison::Doubles => {
            let ops = op_pushed(op_compare_double(), ops);
            let (ops, fixups) = false_branch(Condition::IsNotZero, ops, fixups);
            (ops, fixups)
        },
        Comparison::Ints => {
            let (ops, fixups) = false_branch(Condition::IntsDiffer, ops, fixups);
            (ops, fixups)
        },
        Comparison::Texts => {
            let ops = op_pushed(
                op_invoke_static(
                    member(
                        UTF8_VIEW_CLASS@,
                        "equals"@,
                        "(Lorg/rustlang/runtime/Utf8View;Lorg/rustlang/runtime/Utf8View;)Z"@,
                    ),
                ),
                ops,
            );
            let (ops, fixups) = false_check(ops, fixups);
            (ops, fixups)
        },
        Comparison::Addresses => {
            let ops = op_pushed(
                op_invoke_virtual(
                    member(POINTER_CLASS@, "sameAddress"@, "(Lorg/rustlang/runtime/Pointer;)Z"@),
                ),
                ops,
            );
            let (ops, fixups) = false_check(ops, fixups);
            (ops, fixups)
        },
        Comparison::OwnClass => {
            let ops = op_pushed(
                op_invoke_virtual(
                    member(class_text(field_ty), "eq"@, comparing_descriptor(class_text(field_ty))),
                ),
                ops,
            );
            let (ops, fixups) = false_check(ops, fixups);
            (ops, fixups)
        },
        Comparison::OwnInterface => {
            let ops = op_pushed(
                op_invoke_interface(
                    member(class_text(field_ty), "eq"@, comparing_descriptor(class_text(field_ty))),
                    2,
                ),
                ops,
            );
            let (ops, fixups) = false_check(ops, fixups);
            (ops, fixups)
        },
        Comparison::AddressArrays => {
            let ops = op_pushed(
                op_invoke_static(
                    member(
                        POINTER_CLASS@,
                        "arraySameAddresses"@,
                        "(Ljava/lang/Object;Ljava/lang/Object;)Z"@,
                    ),
                ),
                ops,
            );
            let (ops, fixups) = false_check(ops, fixups);
            (ops, fixups)
        },
        Comparison::Objects => {
            let ops = op_pushed(
                op_invoke_virtual(member(OBJECT_CLASS@, "equals"@, "(Ljava/lang/Object;)Z"@)),
                ops,
            );
            let (ops, fixups) = false_check(ops, fixups);
            (ops, fixups)
        },
        Comparison::Identity => {
            let (ops, fixups) = false_branch(Condition::ReferencesDiffer, ops, fixups);
            (ops, fixups)
        },
    }
}

/// Adds the code that compares a field of both objects.
pub fn append_field_equality_check(
    class_name: &str,
    field_name: &str,
    field_ty: &Type,
    defs: &Definitions,
    ops: &mut Vec<Op>,
    fixups: &mut Vec<usize>,
)
    ensures
        (final(ops).deep_view(), final(fixups).deep_view()) == field_check(
            class_name@,
            field_name@,
            field_ty.deep_view(),
            defs.deep_view(),
            old(ops).deep_view(),
            old(fixups).deep_view(),
        ),
{
    proof {
        reveal(field_check);
    }
    emit_both_fields(class_name, field_name, field_ty, ops);
    match &choose_comparison(field_ty, defs) {
        Comparison::Longs => {
            push_op(make_compare_long(), ops);
            append_false_branch(Condition::IsNotZero, ops, fixups);
        },
        Comparison::Floats => {
            push_op(make_compare_float(), ops);
            append_false_branch(Condition::IsNotZero, ops, fixups);
        },
        Comparison::Doubles => {
            push_op(make_compare_double(), ops);
            append_false_branch(Condition::IsNotZero, ops, fixups);
        },
        Comparison::Ints => {
            append_false_branch(Condition::IntsDiffer, ops, fixups);
        },
        Comparison::Texts => {
            push_op(
                make_invoke_static(
                    &make_member(
                        UTF8_VIEW_CLASS,
                        "equals",
                        "(Lorg/rustlang/runtime/Utf8View;Lorg/rustlang/runtime/Utf8View;)Z",
                    ),
                ),
                ops,
            );
            append_boolean_false_check(ops, fixups);
        },
        Comparison::Addresses => {
            push_op(
                make_invoke_virtual(
                    &make_member(POINTER_CLASS, "sameAddress", "(Lorg/rustlang/runtime/Pointer;)Z"),
                ),
                ops,
            );
            append_boolean_false_check(ops, fixups);
        },
        Comparison::OwnClass => {
            push_op(
                make_invoke_virtual(
                    &make_member(
                        class_text_of(field_ty).as_str(),
                        "eq",
                        make_comparing_descriptor(class_text_of(field_ty).as_str()).as_str(),
                    ),
                ),
                ops,
            );
            append_boolean_false_check(ops, fixups);
        },
        Comparison::OwnInterface => {
            push_op(
                make_invoke_interface(
                    &make_member(
                        class_text_of(field_ty).as_str(),
                        "eq",
                        make_comparing_descriptor(class_text_of(field_ty).as_str()).as_str(),
                    ),
                    2,
                ),
                ops,
            );
            append_boolean_false_check(ops, fixups);
        },
        Comparison::AddressArrays => {
            push_op(
                make_invoke_static(
                    &make_member(
                        POINTER_CLASS,
                        "arraySameAddresses",
                        "(Ljava/lang/Object;Ljava/lang/Object;)Z",
                    ),
                ),
                ops,
            );
            append_boolean_false_check(ops, fixups);
        },
        Comparison::Objects => {
            push_op(
                make_invoke_virtual(&make_member(OBJECT_CLASS, "equals", "(Ljava/lang/Object;)Z")),
                ops,
            );
            append_boolean_false_check(ops, fixups);
        },
        Comparison::Identity => {
            append_false_branch(Condition::ReferencesDiffer, ops, fixups);
        },
    }
}

/// The descriptor of a method that compares an object with another of a class.
pub open spec fn comparing_descriptor(class_name: Text) -> Text {
    "(L"@ + class_name + ";)Z"@
}

fn make_comparing_descriptor(class_name: &str) -> (r: String)
    ensures
        r@ == comparing_descriptor(class_name@),
{
    cat3("(L", class_name, ";)Z")
}

/// Code in which a branch has another target.
pub open spec fn retargeted(ops: Seq<OpModel>, index: usize, target: u16) -> Seq<OpModel> {
    if index < ops.len() && ops[index as int] is Branch {
        ops.update(
            index as int,
            Op::Branch { condition: ops[index as int]->condition, target },
        )
    } else {
        ops
    }
}

/// Gives a branch another target.
pub fn patch_branch_target(ops: &mut Vec<Op>, index: usize, target: u16)
    requires
        index < old(ops)@.len(),
        old(ops).deep_view()[index as int] is Branch,
    ensures
        final(ops).deep_view() == retargeted(old(ops).deep_view(), index, target),
{
    let ghost before = ops.deep_view();
    assert(before[index as int] == ops@[index as int].deep_view());
    let condition = match &ops[index] {
        Op::Branch { condition, .. } => *condition,
        _ => {
            assert(false);
            Condition::IsZero
        },
    };
    ops.set(index, Op::Branch { condition, target });
    assert(ops.deep_view() =~= retargeted(before, index, target));
}

/// Code in which the first of the branches have a target.
pub open spec fn all_retargeted(
    ops: Seq<OpModel>,
    fixups: Seq<usize>,
    target: u16,
    n: nat,
) -> Seq<OpModel>
    decreases n,
{
    if n == 0 || n > fixups.len() {
        ops
    } else {
        retargeted(all_retargeted(ops, fixups, target, (n - 1) as nat), fixups[n - 1], target)
    }
}

/// Whether positions are those of branches.
pub open spec fn are_branches(ops: Seq<OpModel>, fixups: Seq<usize>) -> bool {
    forall|i: int|
        0 <= i < fixups.len() ==> (#[trigger] fixups[i]) < ops.len() && ops[fixups[i] as int]
            is Branch
}

/// Giving branches a target leaves branches where they are.
pub proof fn retargeting_keeps_branches(
    ops: Seq<OpModel>,
    fixups: Seq<usize>,
    target: u16,
    n: nat,
)
    requires
        are_branches(ops, fixups),
        n <= fixups.len(),
    ensures
        all_retargeted(ops, fixups, target, n).len() == ops.len(),
        are_branches(all_retargeted(ops, fixups, target, n), fixups),
    decreases n,
{
    if n > 0 {
        retargeting_keeps_branches(ops, fixups, target, (n - 1) as nat);
    }
}

fn patch_all(ops: &mut Vec<Op>, fixups: &Vec<usize>, target: u16)
    requires
        are_branches(old(ops).deep_view(), fixups.deep_view()),
    ensures
        final(ops).deep_view() == all_retargeted(
            old(ops).deep_view(),
            fixups.deep_view(),
            target,
            fixups@.len(),
        ),
{
    let ghost before = ops.deep_view();
    let ghost model = fixups.deep_view();
    for i in 0..fixups.len()
        invariant
            model == fixups.deep_view(),
            are_branches(before, model),
            ops.deep_view() == all_retargeted(before, model, target, i as nat),
    {
        proof {
            retargeting_keeps_branches(before, model, target, i as nat);
            assert(model[i as int] == fixups@[i as int]);
        }
        patch_branch_target(ops, fixups[i], target);
    }
}

/// Adding the comparison of a field keeps the branches that are there, and adds one.
pub proof fn field_check_adds_branches(
    class_name: Text,
    field_name: Text,
    field_ty: TypeModel,
    defs: DefinitionsModel,
    ops: Seq<OpModel>,
    fixups: Seq<usize>,
)
    requires
        are_branches(ops, fixups),
        field_check(class_name, field_name, field_ty, defs, ops, fixups).0.len() <= usize::MAX,
    ensures
        ({
            let after = field_check(class_name, field_name, field_ty, defs, ops, fixups);
            &&& are_branches(after.0, after.1)
            &&& ops.len() <= after.0.len() <= ops.len() + 9
            &&& after.0.take(ops.len() as int) == ops
        }),
{
    reveal(field_check);
    reveal(both_pushed);
    reveal(false_branch);
    reveal(false_check);
    let after = field_check(class_name, field_name, field_ty, defs, ops, fixups);
    assert(after.0.take(ops.len() as int) =~= ops);
    assert(after.1.len() == fixups.len() + 1);
    assert forall|i: int| 0 <= i < after.1.len() implies (#[trigger] after.1[i]) < after.0.len()
        && after.0[after.1[i] as int] is Branch by {
        if i < fixups.len() {
            assert(after.1[i] == fixups[i]);
            assert(after.0[fixups[i] as int] == ops[fixups[i] as int]);
        } else {
            assert(after.1[i] == (after.0.len() - 1) as usize);
        }
    }
}

/// The code that compares the first fields of both objects; fields without JVM value are left out.
pub open spec fn field_checks(
    class_name: Text,
    fields: Seq<(Text, TypeModel)>,
    defs: DefinitionsModel,
    n: nat,
    ops: Seq<OpModel>,
    fixups: Seq<usize>,
) -> (Seq<OpModel>, Seq<usize>)
    decreases n,
{
    if n == 0 || n > fields.len() {
        (ops, fixups)
    } else {
        let (ops, fixups) = field_checks(class_name, fields, defs, (n - 1) as nat, ops, fixups);
        if has_value(fields[n - 1].1) {
            field_check(class_name, fields[n - 1].0, fields[n - 1].1, defs, ops, fixups)
        } else {
            (ops, fixups)
        }
    }
}

fn append_field_checks(
    class_name: &str,
    fields: &Vec<(String, Type)>,
    defs: &Definitions,
    ops: &mut Vec<Op>,
    fixups: &mut Vec<usize>,
)
    requires
        are_branches(old(ops).deep_view(), old(fixups).deep_view()),
    ensures
        (final(ops).deep_view(), final(fixups).deep_view()) == field_checks(
            class_name@,
            fields.deep_view(),
            defs.deep_view(),
            fields@.len(),
            old(ops).deep_view(),
            old(fixups).deep_view(),
        ),
        are_branches(final(ops).deep_view(), final(fixups).deep_view()),
        final(ops)@.len() >= old(ops)@.len(),
        final(ops).deep_view().take(old(ops)@.len() as int) == old(ops).deep_view(),
{
    let ghost model = fields.deep_view();
    let ghost before = ops.deep_view();
    let ghost marked = fixups.deep_view();
    assert(before.take(before.len() as int) =~= before);
    for i in 0..fields.len()
        invariant
            model == fields.deep_view(),
            (ops.deep_view(), fixups.deep_view()) == field_checks(
                class_name@,
                model,
                defs.deep_view(),
                i as nat,
                before,
                marked,
            ),
            are_branches(ops.deep_view(), fixups.deep_view()),
            ops@.len() >= before.len(),
            ops.deep_view().take(before.len() as int) == before,
    {
        assert(model[i as int] == fields@[i as int].deep_view());
        if fields[i].1.has_jvm_value() {
            let ghost was = ops.deep_view();
            let ghost were = fixups.deep_view();
            append_field_equality_check(
                class_name,
                fields[i].0.as_str(),
                &fields[i].1,
                defs,
                ops,
                fixups,
            );
            let total: usize = ops.len();
            proof {
                assert(ops.deep_view().len() == total);
                field_check_adds_branches(
                    class_name@,
                    model[i as int].0,
                    model[i as int].1,
                    defs.deep_view(),
                    was,
                    were,
                );
                assert(ops.deep_view().take(before.len() as int) =~= was.take(before.len() as int));
            }
        }
    }
}

/// Code that ends with the answer yes.
pub open spec fn answered_yes(ops: Seq<OpModel>) -> Seq<OpModel> {
    op_pushed(op_return(Kind::Int), op_pushed(op_push_int(1), ops))
}

/// Code that ends with the answer no.
pub open spec fn answered_no(ops: Seq<OpModel>) -> Seq<OpModel> {
    op_pushed(op_return(Kind::Int), op_pushed(op_push_int(0), ops))
}

fn answer(ops: &mut Vec<Op>, value: i32)
    ensures
        final(ops).deep_view() == op_pushed(
            op_return(Kind::Int),
            op_pushed(op_push_int(value), old(ops).deep_view()),
        ),
{
    push_op(make_push_int(value), ops);
    push_op(make_return(Kind::Int), ops);
}

/// Code that answers no where a branch for different values leads, and yes otherwise.
pub open spec fn answered(ops: Seq<OpModel>, fixups: Seq<usize>) -> Seq<OpModel> {
    let yes = answered_yes(ops);
    all_retargeted(answered_no(yes), fixups, yes.len() as u16, fixups.len())
}

fn finish_answers(ops: &mut Vec<Op>, fixups: &Vec<usize>)
    requires
        are_branches(old(ops).deep_view(), fixups.deep_view()),
    ensures
        final(ops).deep_view() == answered(old(ops).deep_view(), fixups.deep_view()),
{
    let ghost before = ops.deep_view();
    answer(ops, 1);
    let ghost yes = ops.deep_view();
    let target: u16 = ops.len() as u16;
    answer(ops, 0);
    proof {
        let all = ops.deep_view();
        assert forall|i: int| 0 <= i < fixups@.len() implies (#[trigger] fixups.deep_view()[i])
            < all.len() && all[fixups.deep_view()[i] as int] is Branch by {
            assert(before[fixups.deep_view()[i] as int] == all[fixups.deep_view()[i] as int]);
        }
    }
    patch_all(ops, fixups, target);
}

/// The code that compares two objects of a class field by field.
pub open spec fn class_equality_ops(
    class_name: Text,
    fields: Seq<(Text, TypeModel)>,
    defs: DefinitionsModel,
) -> Seq<OpModel> {
    let (ops, fixups) = field_checks(
        class_name,
        fields,
        defs,
        fields.len(),
        no_ops(),
        no_fixups(),
    );
    if fixups.len() == 0 {
        answered_yes(ops)
    } else {
        answered(ops, fixups)
    }
}

/// The method that compares two objects of a class field by field.
pub open spec fn class_equality_method(
    name: Text,
    class_name: Text,
    fields: Seq<(Text, TypeModel)>,
    defs: DefinitionsModel,
) -> JvmMethodModel {
    method_with_ops(
        PUBLIC_FINAL,
        name,
        comparing_descriptor(class_name),
        4,
        2,
        class_equality_ops(class_name, fields, defs),
    )
}

/// Makes the method that compares two objects of a class field by field.
pub fn create_class_equality(
    name: &str,
    class_name: &str,
    fields: &Vec<(String, Type)>,
    defs: &Definitions,
) -> (r: JvmMethod)
    ensures
        r.deep_view() == class_equality_method(
            name@,
            class_name@,
            fields.deep_view(),
            defs.deep_view(),
        ),
{
    let mut ops = empty_ops();
    let mut fixups = empty_fixups();
    append_field_checks(class_name, fields, defs, &mut ops, &mut fixups);
    if fixups.len() == 0 {
        answer(&mut ops, 1);
    } else {
        finish_answers(&mut ops, &fixups);
    }
    make_method(
        PUBLIC_FINAL,
        name,
        make_comparing_descriptor(class_name).as_str(),
        4,
        2,
        ops,
    )
}

/// The fields of the class of a variant with the given types.
pub open spec fn numbered_fields(types: Seq<TypeModel>) -> Seq<(Text, TypeModel)> {
    Seq::new(types.len(), |i: int| ("field"@ + decimal_text(i as nat), types[i]))
}

fn number_fields(types: &Vec<Type>) -> (r: Vec<(String, Type)>)
    ensures
        r.deep_view() == numbered_fields(types.deep_view()),
{
    let mut r: Vec<(String, Type)> = Vec::new();
    let ghost whole = numbered_fields(types.deep_view());
    for i in 0..types.len()
        invariant
            whole == numbered_fields(types.deep_view()),
            r@.len() == i,
            forall|k: int| #![trigger r@[k]] 0 <= k < i ==> r@[k].deep_view() == whole[k],
    {
        r.push((cat2("field", decimal_usize(i).as_str()), types[i].dup()));
    }
    assert(r.deep_view() =~= whole);
    r
}

/// The number of the variant of the first object on the stack.
#[verifier::opaque]
pub open spec fn variant_number_pushed(
    class_name: Text,
    local: u16,
    ops: Seq<OpModel>,
) -> Seq<OpModel> {
    let ops = op_pushed(op_load(Kind::Reference, local), ops);
    let ops = op_pushed(op_invoke_virtual(member(class_name, "getVariantIdx"@, "()I"@)), ops);
    ops
}

/// Pushes the number of the variant of an object.
pub fn emit_variant_number(class_name: &str, local: u16, ops: &mut Vec<Op>)
    ensures
        final(ops).deep_view() == variant_number_pushed(class_name@, local, old(ops).deep_view()),
{
    proof {
        reveal(variant_number_pushed);
    }
    push_op(make_load(Kind::Reference, local), ops);
    push_op(make_invoke_virtual(&make_member(class_name, "getVariantIdx", "()I")), ops);
}

/// Whether a variant has fields to compare.
pub open spec fn has_comparison(
    class_name: Text,
    variant: (Text, Seq<TypeModel>),
    defs: DefinitionsModel,
) -> bool {
    variant.1.len() > 0 && defs.dom().contains(class_name + "$"@ + variant.0)
}

/// The code that starts the comparison of a variant: objects of other variants go on behind it.
pub open spec fn variant_start(
    class_name: Text,
    index: nat,
    ops: Seq<OpModel>,
) -> Seq<OpModel> {
    op_pushed(
        op_branch(Condition::IntsDiffer, 0),
        op_pushed(
            op_push_int(index as i32),
            variant_number_pushed(class_name, 0, ops),
        ),
    )
}

/// The code that compares two objects of a variant field by field.
pub open spec fn variant_comparison(
    class_name: Text,
    variant: (Text, Seq<TypeModel>),
    index: nat,
    defs: DefinitionsModel,
    ops: Seq<OpModel>,
    fixups: Seq<usize>,
) -> (Seq<OpModel>, Seq<usize>) {
    let start = variant_start(class_name, index, ops);
    let fields = numbered_fields(variant.1);
    let (checked, marked) = field_checks(
        class_name + "$"@ + variant.0,
        fields,
        defs,
        fields.len(),
        start,
        fixups,
    );
    let yes = answered_yes(checked);
    (retargeted(yes, (start.len() - 1) as usize, yes.len() as u16), marked)
}

fn append_variant_comparison(
    class_name: &str,
    variant: &(String, Vec<Type>),
    index: usize,
    defs: &Definitions,
    ops: &mut Vec<Op>,
    fixups: &mut Vec<usize>,
)
    requires
        are_branches(old(ops).deep_view(), old(fixups).deep_view()),
    ensures
        (final(ops).deep_view(), final(fixups).deep_view()) == variant_comparison(
            class_name@,
            variant.deep_view(),
            index as nat,
            defs.deep_view(),
            old(ops).deep_view(),
            old(fixups).deep_view(),
        ),
        are_branches(final(ops).deep_view(), final(fixups).deep_view()),
{
    let ghost before = ops.deep_view();
    let ghost marked = fixups.deep_view();
    emit_variant_number(class_name, 0, ops);
    push_op(make_push_int(index as i32), ops);
    let position: usize = ops.len();
    push_op(make_branch(Condition::IntsDiffer, 0), ops);
    let ghost start = ops.deep_view();
    proof {
        reveal(variant_number_pushed);
        assert(start == variant_start(class_name@, index as nat, before));
        assert forall|i: int| 0 <= i < marked.len() implies (#[trigger] marked[i]) < start.len()
            && start[marked[i] as int] is Branch by {
            assert(start[marked[i] as int] == before[marked[i] as int]);
        }
    }
    let variant_class = cat3(class_name, "$", variant.0.as_str());
    append_field_checks(variant_class.as_str(), &number_fields(&variant.1), defs, ops, fixups);
    let ghost checked = ops.deep_view();
    let ghost all = fixups.deep_view();
    answer(ops, 1);
    let target: u16 = ops.len() as u16;
    proof {
        assert(ops.deep_view().len() == ops@.len());
        assert(checked.take(start.len() as int)[position as int] == start[position as int]);
        assert(ops.deep_view()[position as int] == start[position as int]);
        assert forall|i: int| 0 <= i < all.len() implies (#[trigger] all[i]) < ops@.len()
            && ops.deep_view()[all[i] as int] is Branch by {
            assert(ops.deep_view()[all[i] as int] == checked[all[i] as int]);
        }
    }
    patch_branch_target(ops, position, target);
}

/// The code that compares two objects of the first variants.
pub open spec fn variant_comparisons(
    class_name: Text,
    variants: Seq<(Text, Seq<TypeModel>)>,
    defs: DefinitionsModel,
    n: nat,
    ops: Seq<OpModel>,
    fixups: Seq<usize>,
) -> (Seq<OpModel>, Seq<usize>)
    decreases n,
{
    if n == 0 || n > variants.len() {
        (ops, fixups)
    } else {
        let (ops, fixups) = variant_comparisons(
            class_name,
            variants,
            defs,
            (n - 1) as nat,
            ops,
            fixups,
        );
        if has_comparison(class_name, variants[n - 1], defs) {
            variant_comparison(
                class_name,
                variants[n - 1],
                (n - 1) as nat,
                defs,
                ops,
                fixups,
            )
        } else {
            (ops, fixups)
        }
    }
}

/// The code that tests whether two objects are of the same variant.
pub open spec fn same_variant_ops(class_name: Text) -> Seq<OpModel> {
    op_pushed(
        op_branch(Condition::IntsDiffer, 0),
        variant_number_pushed(
            class_name,
            1,
            variant_number_pushed(class_name, 0, no_ops()),
        ),
    )
}

/// The code that compares two objects of an enum: they are of the same variant, and its fields are
/// equal.
pub open spec fn enum_equality_ops(
    class_name: Text,
    variants: Seq<(Text, Seq<TypeModel>)>,
    defs: DefinitionsModel,
) -> Seq<OpModel> {
    let (ops, fixups) = variant_comparisons(
        class_name,
        variants,
        defs,
        variants.len(),
        same_variant_ops(class_name),
        seq![4usize],
    );
    answered(ops, fixups)
}

/// The method that compares two objects of an enum.
pub open spec fn enum_equality_method(
    name: Text,
    class_name: Text,
    variants: Seq<(Text, Seq<TypeModel>)>,
    defs: DefinitionsModel,
) -> JvmMethodModel {
    method_with_ops(
        PUBLIC_FINAL,
        name,
        comparing_descriptor(class_name),
        4,
        2,
        enum_equality_ops(class_name, variants, defs),
    )
}

/// Makes the method that compares two objects of an enum.
pub fn create_enum_equality(
    name: &str,
    class_name: &str,
    variants: &Vec<(String, Vec<Type>)>,
    defs: &Definitions,
) -> (r: JvmMethod)
    ensures
        r.deep_view() == enum_equality_method(
            name@,
            class_name@,
            variants.deep_view(),
            defs.deep_view(),
        ),
{
    let ghost model = variants.deep_view();
    let mut ops = empty_ops();
    let mut fixups = empty_fixups();
    emit_variant_number(class_name, 0, &mut ops);
    emit_variant_number(class_name, 1, &mut ops);
    proof {
        reveal(variant_number_pushed);
    }
    mark_fixup(&ops, &mut fixups);
    push_op(make_branch(Condition::IntsDiffer, 0), &mut ops);
    let ghost start = ops.deep_view();
    let ghost marked = fixups.deep_view();
    assert(marked =~= seq![4usize]);
    for i in 0..variants.len()
        invariant
            model == variants.deep_view(),
            (ops.deep_view(), fixups.deep_view()) == variant_comparisons(
                class_name@,
                model,
                defs.deep_view(),
                i as nat,
                start,
                marked,
            ),
            are_branches(ops.deep_view(), fixups.deep_view()),
    {
        assert(model[i as int] == variants@[i as int].deep_view());
        let variant = &variants[i];
        let variant_class = cat3(class_name, "$", variant.0.as_str());
        if variant.1.len() > 0 && is_defined(defs, variant_class.as_str()) {
            append_variant_comparison(class_name, variant, i, defs, &mut ops, &mut fixups);
        }
    }
    finish_answers(&mut ops, &fixups);
    make_method(
        PUBLIC_FINAL,
        name,
        make_comparing_descriptor(class_name).as_str(),
        4,
        2,
        ops,
    )
}

/// The number that the code for a variant compares with: that of the variant.
pub open spec fn variant_operand(index: u32) -> i32 {
    index as i32
}

fn variant_operand_of(index: u32) -> (r: i32)
    ensures
        r == variant_operand(index),
{
    index as i32
}

/// The method that tells whether an object is of a variant.
#[verifier::opaque]
pub open spec fn variant_test_method(name: Text, class_name: Text, index: u32) -> JvmMethodModel {
    let ops = no_ops();
    let ops = variant_number_pushed(class_name, 0, ops);
    let ops = op_pushed(op_push_int(variant_operand(index)), ops);
    let ops = op_pushed(op_branch(Condition::IntsDiffer, 6), ops);
    let ops = op_pushed(op_push_int(1), ops);
    let ops = op_pushed(op_goto(7), ops);
    let ops = op_pushed(op_push_int(0), ops);
    let ops = op_pushed(op_return(Kind::Int), ops);
    method_with_ops(PUBLIC_FINAL, name, "()Z"@, 2, 1, ops)
}

/// Makes the method that tells whether an object is of a variant.
pub fn create_variant_test(name: &str, class_name: &str, index: u32) -> (r: JvmMethod)
    ensures
        r.deep_view() == variant_test_method(name@, class_name@, index),
{
    proof {
        reveal(variant_test_method);
    }
    let mut ops = empty_ops();
    emit_variant_number(class_name, 0, &mut ops);
    push_op(make_push_int(variant_operand_of(index)), &mut ops);
    push_op(make_branch(Condition::IntsDiffer, 6), &mut ops);
    push_op(make_push_int(1), &mut ops);
    push_op(make_goto(7), &mut ops);
    push_op(make_push_int(0), &mut ops);
    push_op(make_return(Kind::Int), &mut ops);
    make_method(PUBLIC_FINAL, name, "()Z", 2, 1, ops)
}

} // verus!
