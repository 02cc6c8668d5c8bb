//! How values of each type are compared.
use crate::code::DefinitionsModel;
use crate::comparisons::{
    both_pushed, enum_equality_ops, false_branch, false_check, field_check, has_comparison,
    numbered_fields,
};
use crate::descriptor::descriptor;
use crate::equality_meaning::{
    Compared, agrees, all_agree, comparing_op, enum_equality_is_agreement_in_the_variant,
    variants_agree, verdict,
};
use crate::jvm_ops::{Op, OpModel, kind_of};
use crate::oomir::{DataTypeModel, Text, Type, TypeModel, has_value};
use crate::text::decimal_text;
use vstd::prelude::*;
use vstd::string::*;

verus! {

/// Whether a descriptor is that of a number that fits into an `int`.
pub open spec fn is_small(descriptor: Text) -> bool {
    descriptor == "B"@ || descriptor == "S"@ || descriptor == "C"@ || descriptor == "I"@
        || descriptor == "Z"@
}

/// Values are handled as what their descriptor says that they are.
pub proof fn kinds_follow_the_descriptor(ty: TypeModel)
    requires
        !(ty is Reference),
    ensures
        kind_of(ty) is Long <==> descriptor(ty) == "J"@,
        kind_of(ty) is Float <==> descriptor(ty) == "F"@,
        kind_of(ty) is Double <==> descriptor(ty) == "D"@,
        kind_of(ty) is Nothing <==> descriptor(ty) == "V"@,
        kind_of(ty) is Int <==> is_small(descriptor(ty)),
        kind_of(ty) is Reference <==> descriptor(ty)[0] == 'L' || descriptor(ty)[0] == '[',
{
    reveal_strlit("B");
    reveal_strlit("S");
    reveal_strlit("C");
    reveal_strlit("I");
    reveal_strlit("Z");
    reveal_strlit("J");
    reveal_strlit("F");
    reveal_strlit("D");
    reveal_strlit("V");
    reveal_strlit("L");
    reveal_strlit("[");
    assert("B"@[0] == 'B' && "S"@[0] == 'S' && "C"@[0] == 'C' && "I"@[0] == 'I' && "Z"@[0] == 'Z');
    assert("J"@[0] == 'J' && "F"@[0] == 'F' && "D"@[0] == 'D' && "V"@[0] == 'V');
}

/// Whether a type is that of objects that have a method to compare them.
pub open spec fn has_own_comparison(ty: TypeModel, defs: DefinitionsModel) -> bool {
    match ty {
        Type::Class(name) | Type::Interface(name) => defs.dom().contains(name) && match defs[name] {
            DataTypeModel::Class { methods, .. } => methods.dom().contains("eq"@),
            DataTypeModel::Interface { methods } => methods.dom().contains("eq"@),
        },
        _ => false,
    }
}

/// Whether an instruction calls a method of a class.
pub open spec fn calls(op: Option<OpModel>, class_name: Text, name: Text) -> bool {
    match op {
        Some(Op::InvokeStatic { member }) => member.owner == class_name && member.name == name,
        Some(Op::InvokeVirtual { member }) => member.owner == class_name && member.name == name,
        Some(Op::InvokeInterface { member, .. }) => member.owner == class_name && member.name
            == name,
        _ => false,
    }
}

/// Numbers are compared by their value, with the instruction that their descriptor asks for; text
/// is compared by its content and pointers by their address; objects are compared by their own
/// method, and by that of all objects if they have none.
pub proof fn values_are_compared_by_their_type(ty: TypeModel, defs: DefinitionsModel)
    requires
        !(ty is Reference),
    ensures
        comparing_op(ty, defs) == Some(Op::<Text>::CompareLong) <==> descriptor(ty) == "J"@,
        comparing_op(ty, defs) == Some(Op::<Text>::CompareFloat) <==> descriptor(ty) == "F"@,
        comparing_op(ty, defs) == Some(Op::<Text>::CompareDouble) <==> descriptor(ty) == "D"@,
        is_small(descriptor(ty)) ==> comparing_op(ty, defs) is None,
        ty is Str ==> calls(comparing_op(ty, defs), "org/rustlang/runtime/Utf8View"@, "equals"@),
        ty is Pointer ==> calls(
            comparing_op(ty, defs),
            "org/rustlang/runtime/Pointer"@,
            "sameAddress"@,
        ),
        ty matches Type::Class(name) ==> if has_own_comparison(ty, defs) {
            calls(comparing_op(ty, defs), name, "eq"@) && comparing_op(ty, defs)->0
                is InvokeVirtual
        } else {
            calls(comparing_op(ty, defs), "java/lang/Object"@, "equals"@)
        },
        ty matches Type::Interface(name) ==> if has_own_comparison(ty, defs) {
            calls(comparing_op(ty, defs), name, "eq"@) && comparing_op(ty, defs)->0
                is InvokeInterface
        } else {
            calls(comparing_op(ty, defs), "java/lang/Object"@, "equals"@)
        },
        ty matches Type::Array(inner) ==> if *inner is Pointer {
            calls(
                comparing_op(ty, defs),
                "org/rustlang/runtime/Pointer"@,
                "arraySameAddresses"@,
            )
        } else {
            comparing_op(ty, defs) is None
        },
{
    kinds_follow_the_descriptor(ty);
}

/// The branch behind a comparison fits what is on the stack: without a comparing instruction,
/// numbers are told apart as numbers and objects as references; behind one, its answer is tested.
pub proof fn branches_fit_what_is_compared(
    class_name: Text,
    field_name: Text,
    ty: TypeModel,
    defs: DefinitionsModel,
    ops: Seq<OpModel>,
    fixups: Seq<usize>,
)
    ensures
        ({
            let after = field_check(class_name, field_name, ty, defs, ops, fixups).0;
            after.last() matches Op::Branch { condition, .. } && match comparing_op(ty, defs) {
                None => if kind_of(ty) is Int {
                    condition is IntsDiffer
                } else {
                    condition is ReferencesDiffer
                },
                Some(Op::CompareLong | Op::CompareFloat | Op::CompareDouble) => condition
                    is IsNotZero,
                Some(_) => condition is IsZero,
            }
        }),
{
    reveal(both_pushed);
    reveal(false_branch);
    reveal(false_check);
    reveal(field_check);
}

/// Two objects of an enum are found equal exactly if they are of the same variant and, where the
/// variant has fields and a class for them, agree in all of these.
pub proof fn enums_are_compared_by_variant_and_fields(
    c: Compared,
    class_name: Text,
    variants: Seq<(Text, Seq<TypeModel>)>,
    defs: DefinitionsModel,
    index: int,
)
    requires
        0 <= index < variants.len() <= i32::MAX,
        enum_equality_ops(class_name, variants, defs).len() <= u16::MAX,
        (c.variant)(c.first) == index,
        variants[index].1.len() > 0 ==> defs.dom().contains(
            class_name + "$"@ + variants[index].0,
        ),
    ensures
        verdict(c, enum_equality_ops(class_name, variants, defs), 0, Seq::empty()) == Some(
            if (c.variant)(c.second) == index && forall|i: int|
                0 <= i < variants[index].1.len() && has_value(
                    #[trigger] variants[index].1[i],
                ) ==> agrees(
                    c,
                    ("field"@ + decimal_text(i as nat), variants[index].1[i]),
                    defs,
                ) {
                1int
            } else {
                0int
            },
        ),
{
    enum_equality_is_agreement_in_the_variant(c, class_name, variants, defs);
    let types = variants[index].1;
    let fields = numbered_fields(types);
    let agree = forall|i: int|
        0 <= i < types.len() && has_value(#[trigger] types[i]) ==> agrees(
            c,
            ("field"@ + decimal_text(i as nat), types[i]),
            defs,
        );
    assert(fields.len() == types.len());
    assert(forall|i: int|
        0 <= i < types.len() ==> #[trigger] fields[i] == (
            "field"@ + decimal_text(i as nat),
            types[i],
        ));
    assert(all_agree(c, fields, defs, types.len()) == agree) by {
        if all_agree(c, fields, defs, types.len()) {
            assert forall|i: int|
                0 <= i < types.len() && has_value(#[trigger] types[i]) implies agrees(
                c,
                ("field"@ + decimal_text(i as nat), types[i]),
                defs,
            ) by {
                assert(has_value(fields[i].1));
            }
        }
        if agree {
            assert forall|i: int|
                0 <= i < types.len() && has_value(
                    (#[trigger] fields[i]).1,
                ) implies agrees(c, fields[i], defs) by {
                assert(has_value(types[i]));
            }
        }
    }
    if variants_agree(c, class_name, variants, defs, 0) {
        if types.len() > 0 {
            assert(has_comparison(class_name, variants[index], defs));
            assert(all_agree(c, numbered_fields(variants[index].1), defs, types.len()));
        }
    }
}

} // verus!
