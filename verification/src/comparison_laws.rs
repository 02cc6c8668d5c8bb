//! Where the branches of the methods that compare values lead.
use crate::code::DefinitionsModel;
use crate::comparisons::{
    all_retargeted, answered, answered_no, answered_yes, are_branches, both_pushed,
    class_equality_ops, enum_equality_ops, false_branch, false_check, field_check,
    field_check_adds_branches, field_checks, has_comparison, no_fixups, numbered_fields,
    retargeting_keeps_branches, same_variant_ops, variant_comparison, variant_comparisons,
    variant_number_pushed, variant_start,
};
use crate::jvm_ops::{Kind, Op, OpModel, no_ops, op_push_int, op_return};
use crate::oomir::{Text, TypeModel, has_value};
use vstd::prelude::*;

verus! {

/// Whether an instruction is a branch to a position.
pub open spec fn leads_to(op: OpModel, target: int) -> bool {
    op matches Op::Branch { target: t, .. } && t == target
}

/// Whether every branch has its target set behind itself and not behind the code, except for the
/// ones that are marked.
pub open spec fn is_led(ops: Seq<OpModel>, fixups: Seq<usize>) -> bool {
    forall|i: int|
        0 <= i < ops.len() ==> !(ops[i] is Goto) && (#[trigger] ops[i] matches Op::Branch {
            target,
            ..
        } ==> fixups.contains(i as usize) || i < target <= ops.len())
}

/// Whether every branch is marked.
pub open spec fn is_marked(ops: Seq<OpModel>, fixups: Seq<usize>) -> bool {
    forall|i: int|
        0 <= i < ops.len() && #[trigger] ops[i] is Branch ==> fixups.contains(i as usize)
}

/// The comparison of a field marks its branch and leaves the code in front of it.
proof fn field_check_marks(
    class_name: Text,
    field_name: Text,
    field_ty: TypeModel,
    defs: DefinitionsModel,
    ops: Seq<OpModel>,
    fixups: Seq<usize>,
)
    requires
        ops.len() + 9 <= 0xf_ffff,
    ensures
        ({
            let (after, marked) = field_check(class_name, field_name, field_ty, defs, ops, fixups);
            &&& ops.len() < after.len() <= ops.len() + 9
            &&& forall|i: int| 0 <= i < ops.len() ==> #[trigger] after[i] == ops[i]
            &&& forall|i: int|
                ops.len() <= i < after.len() - 1 ==> !(#[trigger] after[i] is Branch)
                    && !(after[i] is Goto)
            &&& after.last() is Branch
            &&& marked == fixups.push((after.len() - 1) as usize)
        }),
{
    reveal(field_check);
    reveal(both_pushed);
    reveal(false_branch);
    reveal(false_check);
}

proof fn pushed_is_contained(fixups: Seq<usize>, new: usize)
    ensures
        fixups.push(new).contains(new),
        forall|x: usize| #[trigger] fixups.contains(x) ==> fixups.push(new).contains(x),
{
    let all = fixups.push(new);
    assert(all[fixups.len() as int] == new);
    assert forall|x: usize| #[trigger] fixups.contains(x) implies all.contains(x) by {
        let k = choose|k: int| 0 <= k < fixups.len() && fixups[k] == x;
        assert(all[k] == x);
    }
}

/// The comparisons of fields mark their branches and leave the code in front of them.
pub proof fn field_checks_mark(
    class_name: Text,
    fields: Seq<(Text, TypeModel)>,
    defs: DefinitionsModel,
    n: nat,
    ops: Seq<OpModel>,
    fixups: Seq<usize>,
)
    requires
        n <= fields.len(),
        are_branches(ops, fixups),
        field_checks(class_name, fields, defs, n, ops, fixups).0.len() + 9 <= 0xf_ffff,
    ensures
        ({
            let (after, marked) = field_checks(class_name, fields, defs, n, ops, fixups);
            &&& ops.len() <= after.len()
            &&& are_branches(after, marked)
            &&& is_led(ops, fixups) ==> is_led(after, marked)
            &&& is_marked(ops, fixups) ==> is_marked(after, marked)
            &&& forall|i: int| 0 <= i < ops.len() ==> #[trigger] after[i] == ops[i]
            &&& forall|i: usize| #[trigger] fixups.contains(i) ==> marked.contains(i)
            &&& forall|i: int|
                ops.len() <= i < after.len() && #[trigger] after[i] is Branch ==> marked.contains(
                    i as usize,
                )
            &&& forall|i: int| ops.len() <= i < after.len() ==> !(#[trigger] after[i] is Goto)
        }),
    decreases n,
{
    if n > 0 {
        let (before, marked) = field_checks(
            class_name,
            fields,
            defs,
            (n - 1) as nat,
            ops,
            fixups,
        );
        if has_value(fields[n - 1].1) {
            field_check_grows(class_name, fields[n - 1].0, fields[n - 1].1, defs, before, marked);
            field_checks_mark(class_name, fields, defs, (n - 1) as nat, ops, fixups);
            field_check_marks(class_name, fields[n - 1].0, fields[n - 1].1, defs, before, marked);
            field_check_adds_branches(
                class_name,
                fields[n - 1].0,
                fields[n - 1].1,
                defs,
                before,
                marked,
            );
            let (after, all) = field_check(
                class_name,
                fields[n - 1].0,
                fields[n - 1].1,
                defs,
                before,
                marked,
            );
            pushed_is_contained(marked, (after.len() - 1) as usize);
        } else {
            field_checks_mark(class_name, fields, defs, (n - 1) as nat, ops, fixups);
        }
    }
}

proof fn field_check_grows(
    class_name: Text,
    field_name: Text,
    field_ty: TypeModel,
    defs: DefinitionsModel,
    ops: Seq<OpModel>,
    fixups: Seq<usize>,
)
    ensures
        field_check(class_name, field_name, field_ty, defs, ops, fixups).0.len() >= ops.len() + 7,
{
    reveal(field_check);
    reveal(both_pushed);
    reveal(false_branch);
    reveal(false_check);
}

/// Giving the marked branches a target changes nothing else.
proof fn retargeting_sets_targets(ops: Seq<OpModel>, fixups: Seq<usize>, target: u16, n: nat)
    requires
        are_branches(ops, fixups),
        n <= fixups.len(),
    ensures
        ({
            let after = all_retargeted(ops, fixups, target, n);
            &&& after.len() == ops.len()
            &&& forall|k: int| 0 <= k < n ==> leads_to(
                after[#[trigger] fixups[k] as int],
                target as int,
            )
            &&& forall|i: int|
                0 <= i < ops.len() ==> #[trigger] after[i] == ops[i] || (ops[i] is Branch
                    && leads_to(after[i], target as int))
        }),
    decreases n,
{
    if n > 0 {
        retargeting_sets_targets(ops, fixups, target, (n - 1) as nat);
        retargeting_keeps_branches(ops, fixups, target, (n - 1) as nat);
        let before = all_retargeted(ops, fixups, target, (n - 1) as nat);
        let after = all_retargeted(ops, fixups, target, n);
        assert forall|k: int| 0 <= k < n implies leads_to(
            after[#[trigger] fixups[k] as int],
            target as int,
        ) by {
            if k < n - 1 {
                assert(leads_to(before[fixups[k] as int], target as int));
            }
        }
    }
}

/// Marked branches lead to the answer no, which ends the code; others lead where they did.
proof fn answers_end_the_code(ops: Seq<OpModel>, fixups: Seq<usize>)
    requires
        are_branches(ops, fixups),
        ops.len() + 4 <= u16::MAX,
        is_led(ops, fixups),
    ensures
        ({
            let all = answered(ops, fixups);
            let n = all.len() as int;
            &&& n == ops.len() + 4
            &&& all[n - 4] == op_push_int(1)
            &&& all[n - 3] == op_return(Kind::Int)
            &&& all[n - 2] == op_push_int(0)
            &&& all[n - 1] == op_return(Kind::Int)
            &&& forall|i: int|
                0 <= i < n && #[trigger] all[i] is Branch ==> leads_to(all[i], n - 2)
                    || (!fixups.contains(
                    i as usize,
                ) && i < all[i]->Branch_target < n)
            &&& forall|i: int| 0 <= i < n ==> !(#[trigger] all[i] is Goto)
        }),
{
    let yes = answered_yes(ops);
    let open = answered_no(yes);
    let all = answered(ops, fixups);
    let target = yes.len() as u16;
    assert(open.len() == ops.len() + 4);
    assert(forall|i: int| 0 <= i < ops.len() ==> #[trigger] open[i] == ops[i]);
    assert(are_branches(open, fixups)) by {
        assert forall|i: int| 0 <= i < fixups.len() implies (#[trigger] fixups[i]) < open.len()
            && open[fixups[i] as int] is Branch by {
            assert(open[fixups[i] as int] == ops[fixups[i] as int]);
        }
    }
    retargeting_sets_targets(open, fixups, target, fixups.len());
    let n = all.len() as int;
    assert forall|i: int| 0 <= i < n && #[trigger] all[i] is Branch implies leads_to(all[i], n - 2)
        || (!fixups.contains(i as usize) && i < all[i]->Branch_target < n) by {
        assert(i < ops.len());
        if fixups.contains(i as usize) {
            let k = choose|k: int| 0 <= k < fixups.len() && fixups[k] == i as usize;
            assert(leads_to(all[fixups[k] as int], target as int));
        } else if all[i] == open[i] {
            assert(all[i] == ops[i]);
        }
    }
}

/// In the method that compares two objects of a class, every branch is taken when a field differs
/// and leads to the answer no; code that takes none comes to the answer yes.
pub proof fn a_different_field_answers_no(
    class_name: Text,
    fields: Seq<(Text, TypeModel)>,
    defs: DefinitionsModel,
)
    requires
        class_equality_ops(class_name, fields, defs).len() <= u16::MAX,
    ensures
        ({
            let ops = class_equality_ops(class_name, fields, defs);
            let n = ops.len() as int;
            &&& n >= 2
            &&& ops[n - 1] == op_return(Kind::Int)
            &&& (forall|i: int| 0 <= i < n ==> !(#[trigger] ops[i] is Branch)) ==> ops[n - 2]
                == op_push_int(1)
            &&& forall|i: int|
                0 <= i < n && #[trigger] ops[i] is Branch ==> leads_to(ops[i], n - 2) && ops[n - 2]
                    == op_push_int(0) && ops[n - 3] == op_return(Kind::Int) && ops[n - 4]
                    == op_push_int(1)
            &&& forall|i: int| 0 <= i < n ==> !(#[trigger] ops[i] is Goto)
        }),
{
    let (ops, fixups) = field_checks(
        class_name,
        fields,
        defs,
        fields.len(),
        no_ops(),
        no_fixups(),
    );
    answered_length(ops, fixups, fixups.len());
    field_checks_mark(class_name, fields, defs, fields.len(), no_ops(), no_fixups());
    let all = class_equality_ops(class_name, fields, defs);
    if fixups.len() > 0 {
        answers_end_the_code(ops, fixups);
        assert forall|i: int| 0 <= i < all.len() && #[trigger] all[i] is Branch implies leads_to(
            all[i],
            all.len() - 2,
        ) by {
            if !leads_to(all[i], all.len() - 2) {
                answered_keeps(ops, fixups, i);
            }
        }
        assert(ops[fixups[0] as int] is Branch);
        answered_keeps(ops, fixups, fixups[0] as int);
        assert(all[fixups[0] as int] is Branch);
    } else {
        assert forall|i: int| 0 <= i < all.len() implies !(#[trigger] all[i] is Branch) && !(all[i]
            is Goto) by {
            if i < ops.len() {
                assert(all[i] == ops[i]);
            }
        }
    }
}

/// The answers leave a branch a branch, and make no other.
proof fn answered_keeps(ops: Seq<OpModel>, fixups: Seq<usize>, i: int)
    requires
        are_branches(ops, fixups),
        0 <= i < ops.len() + 4,
        ops.len() + 4 <= u16::MAX,
    ensures
        answered(ops, fixups).len() == ops.len() + 4,
        answered(ops, fixups)[i] is Branch <==> i < ops.len() && ops[i] is Branch,
{
    let open = answered_no(answered_yes(ops));
    assert(forall|k: int| 0 <= k < ops.len() ==> #[trigger] open[k] == ops[k]);
    assert(are_branches(open, fixups)) by {
        assert forall|k: int| 0 <= k < fixups.len() implies (#[trigger] fixups[k]) < open.len()
            && open[fixups[k] as int] is Branch by {
            assert(open[fixups[k] as int] == ops[fixups[k] as int]);
        }
    }
    retargeting_sets_targets(open, fixups, answered_yes(ops).len() as u16, fixups.len());
}

proof fn variant_comparison_is_led(
    class_name: Text,
    variant: (Text, Seq<TypeModel>),
    index: nat,
    defs: DefinitionsModel,
    ops: Seq<OpModel>,
    fixups: Seq<usize>,
)
    requires
        are_branches(ops, fixups),
        is_led(ops, fixups),
        variant_comparison(class_name, variant, index, defs, ops, fixups).0.len() <= u16::MAX,
    ensures
        ({
            let (after, marked) = variant_comparison(class_name, variant, index, defs, ops, fixups);
            &&& are_branches(after, marked)
            &&& is_led(after, marked)
            &&& after.len() > ops.len()
        }),
{
    reveal(variant_number_pushed);
    let start = variant_start(class_name, index, ops);
    let skip = (start.len() - 1) as usize;
    let both = fixups.push(skip);
    assert(forall|i: int| 0 <= i < ops.len() ==> #[trigger] start[i] == ops[i]);
    assert(are_branches(start, fixups)) by {
        assert forall|k: int| 0 <= k < fixups.len() implies (#[trigger] fixups[k]) < start.len()
            && start[fixups[k] as int] is Branch by {
            assert(start[fixups[k] as int] == ops[fixups[k] as int]);
        }
    }
    let fields = numbered_fields(variant.1);
    let name = class_name + "$"@ + variant.0;
    let (checked, marked) = field_checks(name, fields, defs, fields.len(), start, fixups);
    let yes = answered_yes(checked);
    let (after, _) = variant_comparison(class_name, variant, index, defs, ops, fixups);
    field_checks_mark(name, fields, defs, fields.len(), start, fixups);
    assert(checked[skip as int] == start[skip as int]);
    assert(yes[skip as int] is Branch);
    assert forall|i: int| 0 <= i < after.len() implies !(after[i] is Goto) && (#[trigger] after[i]
        matches Op::Branch { target, .. } ==> marked.contains(i as usize) || i < target
        <= after.len()) by {
        if i != skip {
            assert(after[i] == yes[i]);
            if i < ops.len() {
                assert(yes[i] == ops[i]);
            } else if i < start.len() {
                assert(yes[i] == start[i]);
            } else if i < checked.len() {
                assert(yes[i] == checked[i]);
            }
        }
    }
    assert(are_branches(after, marked)) by {
        assert forall|k: int| 0 <= k < marked.len() implies (#[trigger] marked[k]) < after.len()
            && after[marked[k] as int] is Branch by {
            assert(checked[marked[k] as int] is Branch);
        }
    }
}

proof fn variant_comparisons_are_led(
    class_name: Text,
    variants: Seq<(Text, Seq<TypeModel>)>,
    defs: DefinitionsModel,
    n: nat,
    ops: Seq<OpModel>,
    fixups: Seq<usize>,
)
    requires
        n <= variants.len(),
        are_branches(ops, fixups),
        is_led(ops, fixups),
        variant_comparisons(class_name, variants, defs, n, ops, fixups).0.len() <= u16::MAX,
    ensures
        ({
            let (after, marked) = variant_comparisons(class_name, variants, defs, n, ops, fixups);
            &&& are_branches(after, marked)
            &&& is_led(after, marked)
        }),
    decreases n,
{
    if n > 0 {
        let (before, marked) = variant_comparisons(
            class_name,
            variants,
            defs,
            (n - 1) as nat,
            ops,
            fixups,
        );
        if has_comparison(class_name, variants[n - 1], defs) {
            variant_comparison_grows(
                class_name,
                variants[n - 1],
                (n - 1) as nat,
                defs,
                before,
                marked,
            );
        }
        variant_comparisons_are_led(class_name, variants, defs, (n - 1) as nat, ops, fixups);
        if has_comparison(class_name, variants[n - 1], defs) {
            variant_comparison_is_led(
                class_name,
                variants[n - 1],
                (n - 1) as nat,
                defs,
                before,
                marked,
            );
        }
    }
}

proof fn field_checks_grow(
    class_name: Text,
    fields: Seq<(Text, TypeModel)>,
    defs: DefinitionsModel,
    n: nat,
    ops: Seq<OpModel>,
    fixups: Seq<usize>,
)
    ensures
        field_checks(class_name, fields, defs, n, ops, fixups).0.len() >= ops.len(),
    decreases n,
{
    if n > 0 && n <= fields.len() {
        field_checks_grow(class_name, fields, defs, (n - 1) as nat, ops, fixups);
        let (before, marked) = field_checks(
            class_name,
            fields,
            defs,
            (n - 1) as nat,
            ops,
            fixups,
        );
        field_check_grows(class_name, fields[n - 1].0, fields[n - 1].1, defs, before, marked);
    }
}

/// The comparison of a variant only adds code.
pub proof fn variant_comparison_grows(
    class_name: Text,
    variant: (Text, Seq<TypeModel>),
    index: nat,
    defs: DefinitionsModel,
    ops: Seq<OpModel>,
    fixups: Seq<usize>,
)
    ensures
        variant_comparison(class_name, variant, index, defs, ops, fixups).0.len() >= ops.len(),
{
    reveal(variant_number_pushed);
    let fields = numbered_fields(variant.1);
    field_checks_grow(
        class_name + "$"@ + variant.0,
        fields,
        defs,
        fields.len(),
        variant_start(class_name, index, ops),
        fixups,
    );
}

/// In the method that compares two objects of an enum, every branch leads forward and stays inside
/// the code; objects of different variants are answered no.
pub proof fn branches_of_comparisons_lead_forward(
    class_name: Text,
    variants: Seq<(Text, Seq<TypeModel>)>,
    defs: DefinitionsModel,
)
    requires
        enum_equality_ops(class_name, variants, defs).len() <= u16::MAX,
    ensures
        ({
            let ops = enum_equality_ops(class_name, variants, defs);
            let n = ops.len() as int;
            &&& n >= 4
            &&& ops[n - 2] == op_push_int(0)
            &&& ops[n - 1] == op_return(Kind::Int)
            &&& forall|i: int|
                0 <= i < n && #[trigger] ops[i] is Branch ==> i < ops[i]->Branch_target < n
            &&& forall|i: int| 0 <= i < n ==> !(#[trigger] ops[i] is Goto)
        }),
{
    reveal(variant_number_pushed);
    let start = same_variant_ops(class_name);
    let fixups = seq![4usize];
    assert(start.len() == 5);
    assert(start[4] is Branch);
    assert(fixups[0] == 4);
    assert(fixups.contains(4usize));
    let (ops, marked) = variant_comparisons(
        class_name,
        variants,
        defs,
        variants.len(),
        start,
        fixups,
    );
    assert(answered(ops, marked).len() == ops.len() + 4) by {
        answered_length(ops, marked, marked.len());
    }
    variant_comparisons_are_led(class_name, variants, defs, variants.len(), start, fixups);
    answers_end_the_code(ops, marked);
    let all = enum_equality_ops(class_name, variants, defs);
    assert forall|i: int| 0 <= i < all.len() && #[trigger] all[i] is Branch implies i
        < all[i]->Branch_target < all.len() by {
        answered_keeps(ops, marked, i);
    }
}

/// The two answers behind a comparison are four instructions.
pub proof fn answered_length(ops: Seq<OpModel>, fixups: Seq<usize>, n: nat)
    ensures
        all_retargeted(
            answered_no(answered_yes(ops)),
            fixups,
            answered_yes(ops).len() as u16,
            n,
        ).len() == ops.len() + 4,
    decreases n,
{
    if n > 0 && n <= fixups.len() {
        answered_length(ops, fixups, (n - 1) as nat);
    }
}

} // verus!
