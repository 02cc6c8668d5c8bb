//! What the methods that compare values answer.
use crate::code::DefinitionsModel;
use crate::comparison_laws::{answered_length, field_checks_mark, variant_comparison_grows};
use crate::comparisons::{
    Comparison, all_retargeted, answered_no, answered_yes, are_branches, both_pushed,
    class_equality_ops, comparing_descriptor, comparison_of, enum_equality_ops, false_branch,
    false_check, field_check, field_checks, has_comparison, no_fixups, numbered_fields,
    retargeting_keeps_branches, same_variant_ops, variant_comparison, variant_comparisons,
    variant_number_pushed, variant_operand, variant_start, variant_test_method,
};
use crate::descriptor::{OBJECT_CLASS, POINTER_CLASS, UTF8_VIEW_CLASS};
use crate::drop_glue::class_text;
use crate::jvm_ops::{
    Condition, Kind, Op, OpModel, no_ops, op_branch, op_compare_double, op_compare_float,
    op_compare_long, op_invoke_interface, op_invoke_static, op_invoke_virtual, op_load,
    op_push_int, op_return,
};
use crate::oomir::{Text, TypeModel, has_value};
use vstd::prelude::*;
use vstd::string::*;

verus! {

/// Two objects that are compared, and what the code that compares them finds out about values.
pub struct Compared {
    pub first: int,
    pub second: int,
    /// The value of a field of an object.
    pub field: spec_fn(int, Text) -> int,
    /// The number of the variant of an object.
    pub variant: spec_fn(int) -> int,
    /// Whether an instruction that compares two values finds them to be the same.
    pub same: spec_fn(OpModel, int, int) -> bool,
}

/// The stack with a value in place of the two topmost ones.
pub open spec fn compared_on(stack: Seq<int>, value: int) -> Seq<int> {
    stack.drop_last().drop_last().push(value)
}

/// The stack behind a method that is called to compare two values: one if it finds them the same.
pub open spec fn tested_on(c: Compared, op: OpModel, stack: Seq<int>) -> Seq<int> {
    let n = stack.len() as int;
    compared_on(
        stack,
        if (c.same)(op, stack[n - 2], stack[n - 1]) {
            1
        } else {
            0
        },
    )
}

/// What code that compares two objects answers from one of its instructions on. It only goes
/// forward.
pub open spec fn verdict(c: Compared, ops: Seq<OpModel>, at: int, stack: Seq<int>) -> Option<int>
    decreases ops.len() - at,
{
    if !(0 <= at < ops.len()) {
        None
    } else {
        let n = stack.len() as int;
        let next = at + 1;
        match ops[at] {
            Op::Load { local, .. } => verdict(
                c,
                ops,
                next,
                stack.push(
                    if local == 0 {
                        c.first
                    } else {
                        c.second
                    },
                ),
            ),
            Op::CheckCast { .. } => verdict(c, ops, next, stack),
            Op::GetField { member } => verdict(
                c,
                ops,
                next,
                stack.drop_last().push((c.field)(stack.last(), member.name)),
            ),
            Op::PushInt { value } => verdict(c, ops, next, stack.push(value as int)),
            Op::CompareLong | Op::CompareFloat | Op::CompareDouble => {
                let same = (c.same)(ops[at], stack[n - 2], stack[n - 1]);
                verdict(
                    c,
                    ops,
                    next,
                    compared_on(
                        stack,
                        if same {
                            0
                        } else {
                            1
                        },
                    ),
                )
            },
            Op::InvokeVirtual { member } => if member.name == "getVariantIdx"@ {
                verdict(c, ops, next, stack.drop_last().push((c.variant)(stack.last())))
            } else {
                verdict(c, ops, next, tested_on(c, ops[at], stack))
            },
            Op::InvokeStatic { .. } => verdict(c, ops, next, tested_on(c, ops[at], stack)),
            Op::InvokeInterface { .. } => verdict(c, ops, next, tested_on(c, ops[at], stack)),
            Op::Branch { condition, target } => {
                let (taken, left) = match condition {
                    Condition::IsZero => (stack[n - 1] == 0, stack.drop_last()),
                    Condition::IsNotZero => (stack[n - 1] != 0, stack.drop_last()),
                    _ => (stack[n - 2] != stack[n - 1], stack.drop_last().drop_last()),
                };
                if !taken {
                    verdict(c, ops, next, left)
                } else if at < target < ops.len() {
                    verdict(c, ops, target as int, left)
                } else {
                    None
                }
            },
            Op::Goto { target } => if at < target < ops.len() {
                verdict(c, ops, target as int, stack)
            } else {
                None
            },
            Op::Return { .. } => Some(stack.last()),
            _ => None,
        }
    }
}

/// The instruction that compares two values of a type, if it takes one.
pub open spec fn comparing_op(ty: TypeModel, defs: DefinitionsModel) -> Option<OpModel> {
    match comparison_of(ty, defs) {
        Comparison::Longs => Some(op_compare_long()),
        Comparison::Floats => Some(op_compare_float()),
        Comparison::Doubles => Some(op_compare_double()),
        Comparison::Ints => None,
        Comparison::Identity => None,
        Comparison::Texts => Some(
            op_invoke_static(
                crate::jvm_ops::member(
                    UTF8_VIEW_CLASS@,
                    "equals"@,
                    "(Lorg/rustlang/runtime/Utf8View;Lorg/rustlang/runtime/Utf8View;)Z"@,
                ),
            ),
        ),
        Comparison::Addresses => Some(
            op_invoke_virtual(
                crate::jvm_ops::member(
                    POINTER_CLASS@,
                    "sameAddress"@,
                    "(Lorg/rustlang/runtime/Pointer;)Z"@,
                ),
            ),
        ),
        Comparison::OwnClass => Some(
            op_invoke_virtual(
                crate::jvm_ops::member(
                    class_text(ty),
                    "eq"@,
                    comparing_descriptor(class_text(ty)),
                ),
            ),
        ),
        Comparison::OwnInterface => Some(
            op_invoke_interface(
                crate::jvm_ops::member(
                    class_text(ty),
                    "eq"@,
                    comparing_descriptor(class_text(ty)),
                ),
                2,
            ),
        ),
        Comparison::AddressArrays => Some(
            op_invoke_static(
                crate::jvm_ops::member(
                    POINTER_CLASS@,
                    "arraySameAddresses"@,
                    "(Ljava/lang/Object;Ljava/lang/Object;)Z"@,
                ),
            ),
        ),
        Comparison::Objects => Some(
            op_invoke_virtual(
                crate::jvm_ops::member(OBJECT_CLASS@, "equals"@, "(Ljava/lang/Object;)Z"@),
            ),
        ),
    }
}

/// Whether two objects agree in a field: the values are found to be the same, or are the same where
/// nothing is asked.
pub open spec fn agrees(c: Compared, field: (Text, TypeModel), defs: DefinitionsModel) -> bool {
    let x = (c.field)(c.first, field.0);
    let y = (c.field)(c.second, field.0);
    match comparing_op(field.1, defs) {
        Some(op) => (c.same)(op, x, y),
        None => x == y,
    }
}

/// Whether two objects agree in the first of the fields that have a JVM value.
pub open spec fn all_agree(
    c: Compared,
    fields: Seq<(Text, TypeModel)>,
    defs: DefinitionsModel,
    n: nat,
) -> bool {
    forall|i: int|
        0 <= i < n && has_value((#[trigger] fields[i]).1) ==> agrees(c, fields[i], defs)
}

/// Whether code is other code in part, with the branches of that part leading elsewhere.
pub open spec fn is_copied(
    all: Seq<OpModel>,
    ops: Seq<OpModel>,
    from: int,
    to: int,
    target: u16,
) -> bool {
    &&& 0 <= from <= to <= ops.len()
    &&& to <= all.len()
    &&& forall|i: int|
        from <= i < to ==> #[trigger] all[i] == match ops[i] {
            Op::Branch { condition, .. } => Op::Branch { condition, target },
            other => other,
        }
}

/// The names of the methods that are called to compare differ from that of the variant's number.
proof fn names_of_comparisons()
    ensures
        "getVariantIdx"@ != "equals"@,
        "getVariantIdx"@ != "sameAddress"@,
        "getVariantIdx"@ != "eq"@,
        "getVariantIdx"@ != "arraySameAddresses"@,
{
    reveal_strlit("getVariantIdx");
    reveal_strlit("equals");
    reveal_strlit("sameAddress");
    reveal_strlit("eq");
    reveal_strlit("arraySameAddresses");
    assert("getVariantIdx"@[0] == 'g');
}

/// The comparison of a field goes on if the objects agree in it, and to the target if they do not.
proof fn field_is_compared(
    c: Compared,
    all: Seq<OpModel>,
    class_name: Text,
    field: (Text, TypeModel),
    defs: DefinitionsModel,
    ops: Seq<OpModel>,
    fixups: Seq<usize>,
    target: u16,
)
    requires
        is_copied(
            all,
            field_check(class_name, field.0, field.1, defs, ops, fixups).0,
            ops.len() as int,
            field_check(class_name, field.0, field.1, defs, ops, fixups).0.len() as int,
            target,
        ),
        field_check(class_name, field.0, field.1, defs, ops, fixups).0.len() <= target < all.len(),
    ensures
        verdict(c, all, ops.len() as int, Seq::empty()) == if agrees(c, field, defs) {
            verdict(
                c,
                all,
                field_check(class_name, field.0, field.1, defs, ops, fixups).0.len() as int,
                Seq::empty(),
            )
        } else {
            verdict(c, all, target as int, Seq::empty())
        },
{
    reveal(field_check);
    reveal(both_pushed);
    reveal(false_branch);
    reveal(false_check);
    names_of_comparisons();
    let after = field_check(class_name, field.0, field.1, defs, ops, fixups).0;
    let p = ops.len() as int;
    let none = Seq::<int>::empty();
    let x = (c.field)(c.first, field.0);
    let y = (c.field)(c.second, field.0);
    assert(all[p] == after[p] && all[p + 1] == after[p + 1] && all[p + 2] == after[p + 2]);
    assert(all[p + 3] == after[p + 3] && all[p + 4] == after[p + 4] && all[p + 5] == after[p + 5]);
    let s1 = none.push(c.first);
    let s3 = none.push(x);
    let s4 = s3.push(c.second);
    let s6 = s3.push(y);
    assert(verdict(c, all, p, none) == verdict(c, all, p + 1, s1));
    assert(verdict(c, all, p + 1, s1) == verdict(c, all, p + 2, s1));
    assert(s1.drop_last().push(x) =~= s3);
    assert(verdict(c, all, p + 2, s1) == verdict(c, all, p + 3, s3));
    assert(verdict(c, all, p + 3, s3) == verdict(c, all, p + 4, s4));
    assert(verdict(c, all, p + 4, s4) == verdict(c, all, p + 5, s4));
    assert(s4.drop_last().push(y) =~= s6);
    assert(verdict(c, all, p + 5, s4) == verdict(c, all, p + 6, s6));
    assert(s6.drop_last().drop_last() =~= none);
    match comparing_op(field.1, defs) {
        None => {
            assert(after.len() == p + 7);
            assert(after[p + 6] is Branch);
        },
        Some(op) => {
            assert(after.len() == p + 8);
            assert(after[p + 6] == op);
            assert(all[p + 6] == op);
            assert(after[p + 7] is Branch);
            let found: int = if op is CompareLong || op is CompareFloat || op is CompareDouble {
                if (c.same)(op, x, y) {
                    0
                } else {
                    1
                }
            } else {
                if (c.same)(op, x, y) {
                    1
                } else {
                    0
                }
            };
            let s7 = none.push(found);
            assert(compared_on(s6, found) =~= s7);
            assert(verdict(c, all, p + 6, s6) == verdict(c, all, p + 7, s7));
            assert(s7.drop_last() =~= none);
        },
    }
}

/// The code of the first fields is the beginning of the code of all of them.
proof fn checks_begin_alike(
    class_name: Text,
    fields: Seq<(Text, TypeModel)>,
    defs: DefinitionsModel,
    n: nat,
    ops: Seq<OpModel>,
    fixups: Seq<usize>,
)
    requires
        0 < n <= fields.len(),
    ensures
        ({
            let before = field_checks(class_name, fields, defs, (n - 1) as nat, ops, fixups).0;
            let after = field_checks(class_name, fields, defs, n, ops, fixups).0;
            &&& ops.len() <= before.len() <= after.len()
            &&& forall|i: int| 0 <= i < before.len() ==> #[trigger] after[i] == before[i]
        }),
    decreases n,
{
    reveal(field_check);
    reveal(both_pushed);
    reveal(false_branch);
    reveal(false_check);
    if n > 1 {
        checks_begin_alike(class_name, fields, defs, (n - 1) as nat, ops, fixups);
    }
}

/// The comparison of fields goes on if the objects agree in all of them, and to the target if they
/// do not.
proof fn fields_are_compared(
    c: Compared,
    all: Seq<OpModel>,
    class_name: Text,
    fields: Seq<(Text, TypeModel)>,
    defs: DefinitionsModel,
    n: nat,
    ops: Seq<OpModel>,
    fixups: Seq<usize>,
    target: u16,
)
    requires
        n <= fields.len(),
        is_copied(
            all,
            field_checks(class_name, fields, defs, n, ops, fixups).0,
            ops.len() as int,
            field_checks(class_name, fields, defs, n, ops, fixups).0.len() as int,
            target,
        ),
        field_checks(class_name, fields, defs, n, ops, fixups).0.len() <= target < all.len(),
    ensures
        verdict(c, all, ops.len() as int, Seq::empty()) == if all_agree(c, fields, defs, n) {
            verdict(
                c,
                all,
                field_checks(class_name, fields, defs, n, ops, fixups).0.len() as int,
                Seq::empty(),
            )
        } else {
            verdict(c, all, target as int, Seq::empty())
        },
    decreases n,
{
    if n > 0 {
        let (before, marked) = field_checks(
            class_name,
            fields,
            defs,
            (n - 1) as nat,
            ops,
            fixups,
        );
        let after = field_checks(class_name, fields, defs, n, ops, fixups).0;
        checks_begin_alike(class_name, fields, defs, n, ops, fixups);
        assert(is_copied(all, before, ops.len() as int, before.len() as int, target)) by {
            assert forall|i: int| ops.len() <= i < before.len() implies #[trigger] all[i]
                == match before[i] {
                Op::Branch { condition, .. } => Op::Branch { condition, target },
                other => other,
            } by {
                assert(after[i] == before[i]);
            }
        }
        fields_are_compared(
            c,
            all,
            class_name,
            fields,
            defs,
            (n - 1) as nat,
            ops,
            fixups,
            target,
        );
        let field = fields[n - 1];
        assert(all_agree(c, fields, defs, n) <==> all_agree(c, fields, defs, (n - 1) as nat) && (
        has_value(field.1) ==> agrees(c, field, defs))) by {
            if all_agree(c, fields, defs, n) {
                assert(has_value(fields[n - 1].1) ==> agrees(c, fields[n - 1], defs));
            }
        }
        if has_value(field.1) {
            field_is_compared(c, all, class_name, field, defs, before, marked, target);
        }
    }
}

/// Giving marked branches a target copies the code, with these branches leading there.
proof fn retargeting_copies(ops: Seq<OpModel>, fixups: Seq<usize>, target: u16, n: nat, i: int)
    requires
        are_branches(ops, fixups),
        n <= fixups.len(),
        0 <= i < ops.len(),
    ensures
        all_retargeted(ops, fixups, target, n).len() == ops.len(),
        all_retargeted(ops, fixups, target, n)[i] == if fixups.take(n as int).contains(i as usize)
            && i <= usize::MAX {
            Op::Branch { condition: ops[i]->condition, target }
        } else {
            ops[i]
        },
    decreases n,
{
    if n > 0 {
        let less = (n - 1) as nat;
        retargeting_copies(ops, fixups, target, less, i);
        retargeting_keeps_branches(ops, fixups, target, less);
        let before = all_retargeted(ops, fixups, target, less);
        let last = fixups[n - 1];
        assert(fixups.take(n as int).drop_last() =~= fixups.take(n - 1));
        assert(fixups.take(n as int) =~= fixups.take(n - 1).push(last));
        assert(fixups.take(n as int).contains(i as usize) <==> fixups.take(n - 1).contains(
            i as usize,
        ) || last == i as usize) by {
            if last == i as usize {
                assert(fixups.take(n as int)[n - 1] == i as usize);
            }
            let front = fixups.take(n - 1);
            if front.contains(i as usize) {
                let k = choose|k: int| 0 <= k < front.len() && front[k] == i as usize;
                assert(fixups.take(n as int)[k] == i as usize);
            }
        }
        assert(before[last as int] is Branch);
        if last == i as usize {
            assert(ops[last as int] is Branch);
        }
    } else {
        assert(fixups.take(0) =~= Seq::<usize>::empty());
    }
}

/// The method that compares two objects of a class answers one if they agree in every field, and
/// zero if they do not.
pub proof fn equality_is_agreement_in_every_field(
    c: Compared,
    class_name: Text,
    fields: Seq<(Text, TypeModel)>,
    defs: DefinitionsModel,
)
    requires
        class_equality_ops(class_name, fields, defs).len() <= u16::MAX,
    ensures
        verdict(c, class_equality_ops(class_name, fields, defs), 0, Seq::empty()) == Some(
            if all_agree(c, fields, defs, fields.len()) {
                1int
            } else {
                0int
            },
        ),
{
    let (ops, fixups) = field_checks(
        class_name,
        fields,
        defs,
        fields.len(),
        no_ops(),
        no_fixups(),
    );
    let all = class_equality_ops(class_name, fields, defs);
    let none = Seq::<int>::empty();
    let yes = answered_yes(ops);
    let target = if fixups.len() > 0 {
        yes.len() as u16
    } else {
        ops.len() as u16
    };
    answered_length(ops, fixups, fixups.len());
    field_checks_mark(class_name, fields, defs, fields.len(), no_ops(), no_fixups());
    let open = answered_no(yes);
    if fixups.len() > 0 {
        assert(are_branches(open, fixups)) by {
            assert forall|k: int| 0 <= k < fixups.len() implies (#[trigger] fixups[k]) < open.len()
                && open[fixups[k] as int] is Branch by {
                assert(open[fixups[k] as int] == ops[fixups[k] as int]);
            }
        }
        assert(fixups.take(fixups.len() as int) =~= fixups);
        assert forall|i: int| 0 <= i < open.len() implies #[trigger] all[i] == if i < ops.len()
            && ops[i] is Branch {
            Op::Branch { condition: ops[i]->condition, target }
        } else {
            open[i]
        } by {
            retargeting_copies(open, fixups, target, fixups.len(), i);
            if fixups.contains(i as usize) {
                let k = choose|k: int| 0 <= k < fixups.len() && fixups[k] == i as usize;
                assert(ops[fixups[k] as int] is Branch);
            }
            if i < ops.len() {
                assert(open[i] == ops[i]);
            }
        }
        assert(all.len() == open.len()) by {
            retargeting_keeps_branches(open, fixups, target, fixups.len());
        }
        assert(is_copied(all, ops, 0, ops.len() as int, target));
        let n = ops.len() as int;
        assert(all[n] == op_push_int(1) && all[n + 1] == op_return(Kind::Int));
        assert(all[n + 2] == op_push_int(0) && all[n + 3] == op_return(Kind::Int));
        answer_is_given(c, all, n, 1);
        answer_is_given(c, all, n + 2, 0);
    } else {
        assert forall|i: int| 0 <= i < ops.len() implies #[trigger] all[i] == match ops[i] {
            Op::Branch { condition, .. } => Op::Branch { condition, target },
            other => other,
        } by {
            assert(all[i] == ops[i]);
            if ops[i] is Branch {
                assert(fixups.contains(i as usize));
            }
        }
        assert(is_copied(all, ops, 0, ops.len() as int, target));
        answer_is_given(c, all, ops.len() as int, 1);
        no_fixups_without_values(class_name, fields, defs, fields.len(), no_ops(), no_fixups());
    }
    fields_are_compared(
        c,
        all,
        class_name,
        fields,
        defs,
        fields.len(),
        no_ops(),
        no_fixups(),
        target,
    );
}

/// Code without marked branches compares no field.
proof fn no_fixups_without_values(
    class_name: Text,
    fields: Seq<(Text, TypeModel)>,
    defs: DefinitionsModel,
    n: nat,
    ops: Seq<OpModel>,
    fixups: Seq<usize>,
)
    requires
        n <= fields.len(),
    ensures
        field_checks(class_name, fields, defs, n, ops, fixups).1.len() >= fixups.len(),
        field_checks(class_name, fields, defs, n, ops, fixups).1.len() == 0 ==> forall|i: int|
            0 <= i < n ==> !has_value((#[trigger] fields[i]).1),
    decreases n,
{
    reveal(field_check);
    reveal(false_branch);
    reveal(false_check);
    if n > 0 {
        no_fixups_without_values(class_name, fields, defs, (n - 1) as nat, ops, fixups);
    }
}

/// A number and a return are an answer.
proof fn answer_is_given(c: Compared, all: Seq<OpModel>, at: int, value: i32)
    requires
        0 <= at,
        at + 1 < all.len(),
        all[at] == op_push_int(value),
        all[at + 1] is Return,
    ensures
        verdict(c, all, at, Seq::empty()) == Some(value as int),
{
    let stack = Seq::<int>::empty().push(value as int);
    assert(verdict(c, all, at, Seq::empty()) == verdict(c, all, at + 1, stack));
    assert(stack.last() == value);
}

/// New marks stand behind the code that was there.
pub open spec fn marks_are_new(
    len: nat,
    fixups: Seq<usize>,
    after: Seq<OpModel>,
    marked: Seq<usize>,
) -> bool {
    &&& forall|x: usize| #[trigger] marked.contains(x) ==> fixups.contains(x) || x >= len
    &&& forall|x: usize| #[trigger] fixups.contains(x) ==> marked.contains(x)
    &&& forall|x: usize| #[trigger] marked.contains(x) ==> x < after.len() || fixups.contains(x)
}

/// The comparisons of fields mark branches of their own only.
proof fn field_marks_are_new(
    class_name: Text,
    fields: Seq<(Text, TypeModel)>,
    defs: DefinitionsModel,
    n: nat,
    ops: Seq<OpModel>,
    fixups: Seq<usize>,
)
    requires
        n <= fields.len(),
        field_checks(class_name, fields, defs, n, ops, fixups).0.len() <= u16::MAX,
    ensures
        ({
            let (after, marked) = field_checks(class_name, fields, defs, n, ops, fixups);
            marks_are_new(ops.len(), fixups, after, marked)
        }),
    decreases n,
{
    reveal(field_check);
    reveal(both_pushed);
    reveal(false_branch);
    reveal(false_check);
    if n > 0 {
        let (before, had) = field_checks(class_name, fields, defs, (n - 1) as nat, ops, fixups);
        let (after, marked) = field_checks(class_name, fields, defs, n, ops, fixups);
        checks_begin_alike(class_name, fields, defs, n, ops, fixups);
        field_marks_are_new(class_name, fields, defs, (n - 1) as nat, ops, fixups);
        if has_value(fields[n - 1].1) {
            let new = (after.len() - 1) as usize;
            assert(marked == had.push(new));
            assert forall|x: usize| #[trigger] marked.contains(x) implies had.contains(x) || x
                == new by {
                let k = choose|k: int| 0 <= k < marked.len() && marked[k] == x;
                if k < had.len() {
                    assert(had[k] == x);
                }
            }
            assert forall|x: usize| #[trigger] had.contains(x) implies marked.contains(x) by {
                let k = choose|k: int| 0 <= k < had.len() && had[k] == x;
                assert(marked[k] == x);
            }
        }
    }
}

/// What the comparison of one variant adds to the code.
pub open spec fn variant_code_added(
    class_name: Text,
    variant: (Text, Seq<TypeModel>),
    index: nat,
    defs: DefinitionsModel,
    ops: Seq<OpModel>,
    fixups: Seq<usize>,
) -> bool {
    let (after, marked) = variant_comparison(class_name, variant, index, defs, ops, fixups);
    let start = variant_start(class_name, index, ops);
    let fields = numbered_fields(variant.1);
    let name = class_name + "$"@ + variant.0;
    let (checked, _) = field_checks(name, fields, defs, fields.len(), start, fixups);
    let p = ops.len() as int;
    let q = checked.len() as int;
    &&& p + 4 == start.len() <= q
    &&& after.len() == q + 2
    &&& forall|i: int| 0 <= i < p ==> #[trigger] after[i] == ops[i]
    &&& after[p] == op_load(Kind::Reference, 0)
    &&& (after[p + 1] matches Op::InvokeVirtual { member } && member.name == "getVariantIdx"@)
    &&& after[p + 2] == op_push_int(index as i32)
    &&& after[p + 3] == op_branch(Condition::IntsDiffer, (q + 2) as u16)
    &&& forall|i: int| p + 4 <= i < q ==> #[trigger] after[i] == checked[i]
    &&& after[q] == op_push_int(1)
    &&& after[q + 1] == op_return(Kind::Int)
    &&& marks_are_new((p + 4) as nat, fixups, checked, marked)
    &&& forall|i: int|
        p + 4 <= i < q && #[trigger] after[i] is Branch ==> marked.contains(i as usize)
    &&& are_branches(after, marked)
}

/// The comparison of one variant adds such code.
proof fn variant_code_is_added(
    class_name: Text,
    variant: (Text, Seq<TypeModel>),
    index: nat,
    defs: DefinitionsModel,
    ops: Seq<OpModel>,
    fixups: Seq<usize>,
)
    requires
        are_branches(ops, fixups),
        variant_comparison(class_name, variant, index, defs, ops, fixups).0.len() <= u16::MAX,
    ensures
        variant_code_added(class_name, variant, index, defs, ops, fixups),
{
    reveal(variant_number_pushed);
    let start = variant_start(class_name, index, ops);
    let skip = (start.len() - 1) as usize;
    assert(forall|i: int| 0 <= i < ops.len() ==> #[trigger] start[i] == ops[i]);
    assert(are_branches(start, fixups)) by {
        assert forall|k: int| 0 <= k < fixups.len() implies (#[trigger] fixups[k]) < start.len()
            && start[fixups[k] as int] is Branch by {
            assert(start[fixups[k] as int] == ops[fixups[k] as int]);
        }
    }
    let fields = numbered_fields(variant.1);
    let name = class_name + "$"@ + variant.0;
    let (checked, marked) = field_checks(name, fields, defs, fields.len(), start, fixups);
    let yes = answered_yes(checked);
    let (after, _) = variant_comparison(class_name, variant, index, defs, ops, fixups);
    assert(yes.len() == checked.len() + 2);
    assert(after.len() == yes.len());
    field_checks_mark(name, fields, defs, fields.len(), start, fixups);
    field_marks_are_new(name, fields, defs, fields.len(), start, fixups);
    assert(checked[skip as int] == start[skip as int]);
    assert(yes[skip as int] is Branch);
    assert forall|i: int| 0 <= i < ops.len() implies #[trigger] after[i] == ops[i] by {
        assert(yes[i] == checked[i]);
        assert(checked[i] == start[i]);
    }
    assert forall|i: int| start.len() <= i < checked.len() implies #[trigger] after[i]
        == checked[i] by {
        assert(yes[i] == checked[i]);
    }
    let p = ops.len() as int;
    assert(checked[p] == start[p] && checked[p + 1] == start[p + 1] && checked[p + 2] == start[p
        + 2]);
    assert(are_branches(after, marked)) by {
        assert forall|k: int| 0 <= k < marked.len() implies (#[trigger] marked[k]) < after.len()
            && after[marked[k] as int] is Branch by {
            assert(checked[marked[k] as int] is Branch);
            assert(yes[marked[k] as int] == checked[marked[k] as int]);
        }
    }
}

/// The code of the first variants stays at the beginning of the code of all of them, and marks that
/// come later stand behind it.
proof fn variants_begin_alike(
    class_name: Text,
    variants: Seq<(Text, Seq<TypeModel>)>,
    defs: DefinitionsModel,
    m: nat,
    n: nat,
    ops: Seq<OpModel>,
    fixups: Seq<usize>,
)
    requires
        m <= n <= variants.len(),
        are_branches(ops, fixups),
        variant_comparisons(class_name, variants, defs, n, ops, fixups).0.len() <= u16::MAX,
    ensures
        ({
            let (before, had) = variant_comparisons(class_name, variants, defs, m, ops, fixups);
            let (after, marked) = variant_comparisons(class_name, variants, defs, n, ops, fixups);
            &&& before.len() <= after.len()
            &&& are_branches(before, had)
            &&& are_branches(after, marked)
            &&& forall|i: int| 0 <= i < before.len() ==> #[trigger] after[i] == before[i]
            &&& marks_are_new(before.len(), had, after, marked)
        }),
    decreases n,
{
    if n > m {
        let less = (n - 1) as nat;
        let (middle, some) = variant_comparisons(class_name, variants, defs, less, ops, fixups);
        let (after, marked) = variant_comparisons(class_name, variants, defs, n, ops, fixups);
        if has_comparison(class_name, variants[n - 1], defs) {
            variant_comparison_grows(class_name, variants[n - 1], less, defs, middle, some);
            variants_begin_alike(class_name, variants, defs, m, less, ops, fixups);
            variant_code_is_added(class_name, variants[n - 1], less, defs, middle, some);
        } else {
            variants_begin_alike(class_name, variants, defs, m, less, ops, fixups);
        }
    } else if n > 0 {
        let less = (n - 1) as nat;
        let (middle, some) = variant_comparisons(class_name, variants, defs, less, ops, fixups);
        if has_comparison(class_name, variants[n - 1], defs) {
            variant_comparison_grows(class_name, variants[n - 1], less, defs, middle, some);
            variants_begin_alike(class_name, variants, defs, less, less, ops, fixups);
            variant_code_is_added(class_name, variants[n - 1], less, defs, middle, some);
        } else {
            variants_begin_alike(class_name, variants, defs, less, less, ops, fixups);
        }
    }
}

/// What the comparison of two objects of the same variant answers, from one variant on: whether the
/// fields of their variant agree, if it has fields to compare.
pub open spec fn variants_agree(
    c: Compared,
    class_name: Text,
    variants: Seq<(Text, Seq<TypeModel>)>,
    defs: DefinitionsModel,
    from: nat,
) -> bool {
    forall|i: int|
        from <= i < variants.len() && has_comparison(class_name, #[trigger] variants[i], defs) && i
            == (c.variant)(c.first) ==> all_agree(
            c,
            numbered_fields(variants[i].1),
            defs,
            variants[i].1.len(),
        )
}

/// The code of the variants from one on answers whether the fields of the variant agree.
proof fn variants_are_compared(
    c: Compared,
    class_name: Text,
    variants: Seq<(Text, Seq<TypeModel>)>,
    defs: DefinitionsModel,
    from: nat,
)
    requires
        from <= variants.len(),
        variants.len() <= i32::MAX,
        enum_equality_ops(class_name, variants, defs).len() <= u16::MAX,
    ensures
        ({
            let all = enum_equality_ops(class_name, variants, defs);
            let start = same_variant_ops(class_name);
            let (ops, _) = variant_comparisons(
                class_name,
                variants,
                defs,
                from,
                start,
                seq![4usize],
            );
            verdict(c, all, ops.len() as int, Seq::empty()) == Some(
                if variants_agree(c, class_name, variants, defs, from) {
                    1int
                } else {
                    0int
                },
            )
        }),
    decreases variants.len() - from,
{
    let all = enum_equality_ops(class_name, variants, defs);
    let start = same_variant_ops(class_name);
    let marks = seq![4usize];
    let none = Seq::<int>::empty();
    let (ops, fixups) = variant_comparisons(
        class_name,
        variants,
        defs,
        variants.len(),
        start,
        marks,
    );
    start_is_a_branch(class_name);
    answered_length(ops, fixups, fixups.len());
    let n = ops.len() as int;
    let target = (n + 2) as u16;
    variants_begin_alike(class_name, variants, defs, from, variants.len(), start, marks);
    equality_code_is_copied(class_name, variants, defs);
    let (here, had) = variant_comparisons(class_name, variants, defs, from, start, marks);
    let p = here.len() as int;
    if from == variants.len() {
        answer_is_given(c, all, n, 1);
    } else {
        let next = (from + 1) as nat;
        let variant = variants[from as int];
        variants_begin_alike(class_name, variants, defs, next, variants.len(), start, marks);
        variants_are_compared(c, class_name, variants, defs, next);
        let (there, marked) = variant_comparisons(class_name, variants, defs, next, start, marks);
        let x = (c.variant)(c.first);
        assert(variants_agree(c, class_name, variants, defs, from) <==> variants_agree(
            c,
            class_name,
            variants,
            defs,
            next,
        ) && (has_comparison(class_name, variant, defs) && from == x ==> all_agree(
            c,
            numbered_fields(variant.1),
            defs,
            variant.1.len(),
        ))) by {
            if variants_agree(c, class_name, variants, defs, from) {
                assert(has_comparison(class_name, variants[from as int], defs) && from == x
                    ==> all_agree(c, numbered_fields(variant.1), defs, variant.1.len()));
            }
        }
        if has_comparison(class_name, variant, defs) {
            assert((there, marked) == variant_comparison(
                class_name,
                variant,
                from,
                defs,
                here,
                had,
            ));
            variant_code_is_added(class_name, variant, from, defs, here, had);
            let fields = numbered_fields(variant.1);
            let name = class_name + "$"@ + variant.0;
            let begun = variant_start(class_name, from, here);
            let (checked, _) = field_checks(name, fields, defs, fields.len(), begun, had);
            let q = checked.len() as int;
            assert(all[p] == there[p] && all[p + 1] == there[p + 1] && all[p + 2] == there[p + 2]);
            assert(!fixups.contains((p + 3) as usize)) by {
                if fixups.contains((p + 3) as usize) {
                    assert(marked.contains((p + 3) as usize));
                    assert(had.contains((p + 3) as usize));
                    let k = choose|k: int| 0 <= k < had.len() && had[k] == (p + 3) as usize;
                    assert(had[k] < here.len());
                }
            }
            assert(all[p + 3] == there[p + 3]);
            assert(all[q] == there[q] && all[q + 1] == there[q + 1]);
            assert(is_copied(all, checked, p + 4, q, target)) by {
                assert forall|i: int| p + 4 <= i < q implies #[trigger] all[i] == match checked[i] {
                    Op::Branch { condition, .. } => Op::Branch { condition, target },
                    other => other,
                } by {
                    assert(there[i] == checked[i]);
                    assert(ops[i] == there[i]);
                    if there[i] is Branch {
                        assert(marked.contains(i as usize));
                        assert(fixups.contains(i as usize));
                    }
                }
            }
            fields_are_compared(c, all, name, fields, defs, fields.len(), begun, had, target);
            answer_is_given(c, all, q, 1);
            answer_is_given(c, all, n + 2, 0);
            let s1 = none.push(c.first);
            let s2 = none.push(x);
            let s3 = s2.push(from as int);
            assert(from as i32 as int == from);
            assert(verdict(c, all, p, none) == verdict(c, all, p + 1, s1));
            assert(s1.drop_last().push(x) =~= s2);
            assert(verdict(c, all, p + 1, s1) == verdict(c, all, p + 2, s2));
            assert(verdict(c, all, p + 2, s2) == verdict(c, all, p + 3, s3));
            assert(s3.drop_last().drop_last() =~= none);
            assert(there.len() == q + 2);
            if x != from {
                assert(verdict(c, all, p + 3, s3) == verdict(c, all, q + 2, none));
            } else {
                assert(verdict(c, all, p + 3, s3) == verdict(c, all, p + 4, none));
                assert forall|i: int|
                    next <= i < variants.len() && has_comparison(
                        class_name,
                        #[trigger] variants[i],
                        defs,
                    ) && i == x implies all_agree(
                    c,
                    numbered_fields(variants[i].1),
                    defs,
                    variants[i].1.len(),
                ) by {
                }
                assert(variants_agree(c, class_name, variants, defs, next));
            }
        }
    }
}

/// The code that compares the numbers of the variants ends with a branch.
proof fn start_is_a_branch(class_name: Text)
    ensures
        same_variant_ops(class_name).len() == 5,
        are_branches(same_variant_ops(class_name), seq![4usize]),
{
    reveal(variant_number_pushed);
}

/// Marks stand inside the code.
proof fn marks_are_inside(ops: Seq<OpModel>, fixups: Seq<usize>, x: usize)
    requires
        are_branches(ops, fixups),
        x >= ops.len(),
    ensures
        !fixups.contains(x),
{
    if fixups.contains(x) {
        let k = choose|k: int| 0 <= k < fixups.len() && fixups[k] == x;
        assert(fixups[k] < ops.len());
    }
}

/// The code that compares two objects of an enum is that of the variants, with marked branches
/// leading to the answer no.
proof fn equality_code_is_copied(
    class_name: Text,
    variants: Seq<(Text, Seq<TypeModel>)>,
    defs: DefinitionsModel,
)
    requires
        enum_equality_ops(class_name, variants, defs).len() <= u16::MAX,
    ensures
        ({
            let all = enum_equality_ops(class_name, variants, defs);
            let (ops, fixups) = variant_comparisons(
                class_name,
                variants,
                defs,
                variants.len(),
                same_variant_ops(class_name),
                seq![4usize],
            );
            let n = ops.len() as int;
            &&& all.len() == n + 4
            &&& all[n] == op_push_int(1)
            &&& all[n + 1] == op_return(Kind::Int)
            &&& all[n + 2] == op_push_int(0)
            &&& all[n + 3] == op_return(Kind::Int)
            &&& forall|i: int|
                0 <= i < n ==> #[trigger] all[i] == if fixups.contains(i as usize) {
                    Op::Branch { condition: ops[i]->condition, target: (n + 2) as u16 }
                } else {
                    ops[i]
                }
        }),
{
    let all = enum_equality_ops(class_name, variants, defs);
    let start = same_variant_ops(class_name);
    let marks = seq![4usize];
    start_is_a_branch(class_name);
    let (ops, fixups) = variant_comparisons(
        class_name,
        variants,
        defs,
        variants.len(),
        start,
        marks,
    );
    answered_length(ops, fixups, fixups.len());
    variants_begin_alike(class_name, variants, defs, 0, variants.len(), start, marks);
    let yes = answered_yes(ops);
    let open = answered_no(yes);
    let target = yes.len() as u16;
    let n = ops.len() as int;
    assert(are_branches(open, fixups)) by {
        assert forall|k: int| 0 <= k < fixups.len() implies (#[trigger] fixups[k]) < open.len()
            && open[fixups[k] as int] is Branch by {
            assert(open[fixups[k] as int] == ops[fixups[k] as int]);
        }
    }
    assert(fixups.take(fixups.len() as int) =~= fixups);
    assert forall|i: int| 0 <= i < open.len() implies #[trigger] all[i] == if fixups.contains(
        i as usize,
    ) {
        Op::Branch { condition: open[i]->condition, target }
    } else {
        open[i]
    } by {
        retargeting_copies(open, fixups, target, fixups.len(), i);
    }
    marks_are_inside(ops, fixups, n as usize);
    marks_are_inside(ops, fixups, (n + 1) as usize);
    marks_are_inside(ops, fixups, (n + 2) as usize);
    marks_are_inside(ops, fixups, (n + 3) as usize);
    assert(all[n] == open[n] && all[n + 1] == open[n + 1]);
    assert(all[n + 2] == open[n + 2] && all[n + 3] == open[n + 3]);
    assert(forall|i: int| 0 <= i < n ==> #[trigger] open[i] == ops[i]);
}

/// The method that compares two objects of an enum answers one if they are of the same variant and
/// agree in every field that the variant has to compare, and zero if they are not or do not.
pub proof fn enum_equality_is_agreement_in_the_variant(
    c: Compared,
    class_name: Text,
    variants: Seq<(Text, Seq<TypeModel>)>,
    defs: DefinitionsModel,
)
    requires
        variants.len() <= i32::MAX,
        enum_equality_ops(class_name, variants, defs).len() <= u16::MAX,
    ensures
        verdict(c, enum_equality_ops(class_name, variants, defs), 0, Seq::empty()) == Some(
            if (c.variant)(c.first) == (c.variant)(c.second) && variants_agree(
                c,
                class_name,
                variants,
                defs,
                0,
            ) {
                1int
            } else {
                0int
            },
        ),
{
    reveal(variant_number_pushed);
    let all = enum_equality_ops(class_name, variants, defs);
    let start = same_variant_ops(class_name);
    let marks = seq![4usize];
    let none = Seq::<int>::empty();
    let (ops, fixups) = variant_comparisons(
        class_name,
        variants,
        defs,
        variants.len(),
        start,
        marks,
    );
    start_is_a_branch(class_name);
    answered_length(ops, fixups, fixups.len());
    variants_are_compared(c, class_name, variants, defs, 0);
    variants_begin_alike(class_name, variants, defs, 0, variants.len(), start, marks);
    equality_code_is_copied(class_name, variants, defs);
    let n = ops.len() as int;
    assert(marks[0] == 4usize);
    assert(marks.contains(4usize));
    assert(!fixups.contains(0usize) && !fixups.contains(1usize) && !fixups.contains(2usize)
        && !fixups.contains(3usize)) by {
        assert(!marks.contains(0usize) && !marks.contains(1usize) && !marks.contains(2usize)
            && !marks.contains(3usize));
    }
    assert(all[0] == start[0] && all[1] == start[1] && all[2] == start[2] && all[3] == start[3]);
    assert(fixups.contains(4usize));
    assert(
        all[4] == Op::<Text>::Branch { condition: Condition::IntsDiffer, target: (n + 2) as u16 }
    );
    let x = (c.variant)(c.first);
    let y = (c.variant)(c.second);
    let s1 = none.push(c.first);
    let s2 = none.push(x);
    let s3 = s2.push(c.second);
    let s4 = s2.push(y);
    assert(verdict(c, all, 0, none) == verdict(c, all, 1, s1));
    assert(s1.drop_last().push(x) =~= s2);
    assert(verdict(c, all, 1, s1) == verdict(c, all, 2, s2));
    assert(verdict(c, all, 2, s2) == verdict(c, all, 3, s3));
    assert(s3.drop_last().push(y) =~= s4);
    assert(verdict(c, all, 3, s3) == verdict(c, all, 4, s4));
    assert(s4.drop_last().drop_last() =~= none);
    if x == y {
        assert(verdict(c, all, 4, s4) == verdict(c, all, 5, none));
    } else {
        assert(verdict(c, all, 4, s4) == verdict(c, all, n + 2, none));
        answer_is_given(c, all, n + 2, 0);
    }
}

/// The method that tests for a variant answers one for objects of the variant and zero for others.
pub proof fn variant_test_knows_the_variant(
    c: Compared,
    name: Text,
    class_name: Text,
    index: u32,
)
    requires
        index <= i32::MAX,
    ensures
        ({
            let ops = variant_test_method(name, class_name, index).body->ops;
            verdict(c, ops, 0, Seq::empty()) == Some(
                if (c.variant)(c.first) == index {
                    1int
                } else {
                    0int
                },
            )
        }),
{
    reveal(variant_test_method);
    reveal(variant_number_pushed);
    let ops = variant_test_method(name, class_name, index).body->ops;
    let none = Seq::<int>::empty();
    let x = (c.variant)(c.first);
    assert(variant_operand(index) == index);
    let s1 = none.push(c.first);
    let s2 = none.push(x);
    let s3 = s2.push(index as int);
    assert(ops.len() == 8);
    assert(verdict(c, ops, 0, none) == verdict(c, ops, 1, s1));
    assert(s1.drop_last().push(x) =~= s2);
    assert(verdict(c, ops, 1, s1) == verdict(c, ops, 2, s2));
    assert(verdict(c, ops, 2, s2) == verdict(c, ops, 3, s3));
    assert(s3.drop_last().drop_last() =~= none);
    if x == index {
        assert(verdict(c, ops, 3, s3) == verdict(c, ops, 4, none));
        assert(verdict(c, ops, 4, none) == verdict(c, ops, 5, none.push(1)));
        assert(verdict(c, ops, 5, none.push(1)) == verdict(c, ops, 7, none.push(1)));
        assert(verdict(c, ops, 7, none.push(1)) == Some(none.push(1).last()));
    } else {
        assert(verdict(c, ops, 3, s3) == verdict(c, ops, 6, none));
        assert(verdict(c, ops, 6, none) == verdict(c, ops, 7, none.push(0)));
        assert(verdict(c, ops, 7, none.push(0)) == Some(none.push(0).last()));
    }
}

} // verus!
