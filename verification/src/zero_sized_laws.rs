//! Which values are loaded that have no bytes.
use crate::code::CodeModel;
use crate::load::zero_sized_value;
use crate::oomir::{Constant, InstructionModel, Operand, Text, Type, has_value};
use crate::rust_type::{RustType, ZeroSized, lowered};
use vstd::prelude::*;

verus! {

/// A value without bytes is nothing if its type has no JVM value, and else the one value of its
/// type: a constant, or a new object of its class that is made of nothing. It takes no other
/// instruction, and cannot be made only where it is not known.
pub proof fn values_without_bytes_are_known(ty: RustType, code: CodeModel)
    ensures
        ({
            let (after, outcome) = zero_sized_value(ty, code);
            let n = code.instructions.len() as int;
            &&& outcome is Err <==> has_value(lowered(ty)) && ty.zero_sized is Unknown
            &&& !has_value(lowered(ty)) ==> after == code && outcome == Ok::<_, Text>(
                Operand::Constant(Constant::<Text>::Unit),
            )
            &&& has_value(lowered(ty)) ==> match ty.zero_sized {
                ZeroSized::Constant(value) => after == code && outcome == Ok::<_, Text>(
                    Operand::Constant(value.deep_view()),
                ),
                ZeroSized::Instance { class_name } => {
                    &&& after.instructions.len() == n + 1
                    &&& after.instructions.take(n) == code.instructions
                    &&& after.instructions[n] matches InstructionModel::ConstructObject {
                        dest,
                        class_name: made,
                        args,
                    }
                    &&& made == class_name@
                    &&& args.len() == 0
                    &&& outcome == Ok::<_, Text>(
                        Operand::Variable { name: dest, ty: Type::Class(class_name@) },
                    )
                },
                ZeroSized::Unknown => after.instructions == code.instructions,
            }
        }),
{
    reveal(zero_sized_value);
    let (after, _) = zero_sized_value(ty, code);
    let n = code.instructions.len() as int;
    if ty.zero_sized is Instance && has_value(lowered(ty)) {
        assert(after.instructions.take(n) =~= code.instructions);
    }
}

} // verus!
