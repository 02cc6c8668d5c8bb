//! Control flow and data flow of a function body: successors of a block, what an instruction
//! reads and defines, and which variables are live on entry to each block.
use crate::name_map::NameMap;
use crate::oomir::{
    has_value,
    operand_type,
    same_type,
    BasicBlock,
    BasicBlockModel,
    CodeBlock,
    CodeBlockModel,
    ConstantModel,
    Duplicate,
    Function,
    FunctionModel,
    Instruction,
    InstructionModel,
    Operand,
    OperandModel,
    Signature,
    SignatureModel,
    Text,
    Type,
    TypeModel,
    CALLER_LOCATION_PARAM_NAME,
};
use crate::descriptor::descriptor;
use crate::text::{cat2, decimal, decimal_text, less, same, text_less, text_less_irreflexive,
    text_less_total, text_less_transitive};
use vstd::prelude::*;

verus! {

/// The local that the generated exception handler defines before it enters an unwind target.
pub const UNWIND_EXCEPTION_LOCAL: &'static str = "__rust_unwind_exception";

/// The class of everything that can be thrown.
pub const THROWABLE_CLASS: &'static str = "java/lang/Throwable";

/// The labels that an instruction can transfer to, in the order in which it names them.
pub open spec fn targets_of(instruction: InstructionModel) -> Seq<Text> {
    match instruction {
        InstructionModel::UnwindStart { target } => seq![target],
        InstructionModel::Jump { target } => seq![target],
        InstructionModel::Branch { true_block, false_block, .. } => seq![true_block, false_block],
        InstructionModel::Switch { targets, otherwise, .. } => targets.map_values(
            |t: (ConstantModel, Text)| t.1,
        ).push(otherwise),
        _ => Seq::empty(),
    }
}

/// `values` with `value` at the end unless it is there already.
pub open spec fn with_value(values: Seq<Text>, value: Text) -> Seq<Text> {
    if values.contains(value) {
        values
    } else {
        values.push(value)
    }
}

/// `values` with each of `more` added in turn.
pub open spec fn with_values(values: Seq<Text>, more: Seq<Text>) -> Seq<Text>
    decreases more.len(),
{
    if more.len() == 0 {
        values
    } else {
        with_value(with_values(values, more.drop_last()), more.last())
    }
}

/// The distinct labels that a list of instructions can transfer to, in the order in which they
/// are first named.
pub open spec fn successors_of(instructions: Seq<InstructionModel>) -> Seq<Text>
    decreases instructions.len(),
{
    if instructions.len() == 0 {
        Seq::empty()
    } else {
        with_values(successors_of(instructions.drop_last()), targets_of(instructions.last()))
    }
}

/// Adds a value unless it is there already.
pub fn push_unique(values: &mut Vec<String>, value: &str)
    ensures
        final(values).deep_view() == with_value(old(values).deep_view(), value@),
{
    let mut i: usize = 0;
    while i < values.len()
        invariant
            i <= values@.len(),
            values.deep_view() == old(values).deep_view(),
            forall|k: int| 0 <= k < i ==> (#[trigger] values@[k])@ != value@,
        decreases values@.len() - i,
    {
        if same(values[i].as_str(), value) {
            assert(values.deep_view()[i as int] == value@);
            return;
        }
        i = i + 1;
    }
    proof {
        if values.deep_view().contains(value@) {
            let k = choose|k: int| 0 <= k < values.deep_view().len()
                && values.deep_view()[k] == value@;
            assert(values@[k]@ == value@);
        }
    }
    values.push(value.to_string());
    assert(values.deep_view() =~= old(values).deep_view().push(value@));
}

/// The distinct labels that a block can transfer to, in the order in which they are first named.
pub fn block_successors(block: &BasicBlock) -> (successors: Vec<String>)
    ensures
        successors.deep_view() == successors_of(block.deep_view().instructions),
{
    let mut successors: Vec<String> = Vec::new();
    let ghost all = block.deep_view().instructions;
    assert(successors.deep_view() =~= Seq::<Text>::empty());
    assert(all.take(0) =~= Seq::<InstructionModel>::empty());
    for i in 0..block.instructions.len()
        invariant
            all == block.deep_view().instructions,
            successors.deep_view() == successors_of(all.take(i as int)),
    {
        let instruction = &block.instructions[i];
        let ghost before = successors.deep_view();
        assert(all[i as int] == instruction.deep_view());
        assert(all.take(i + 1).drop_last() =~= all.take(i as int));
        let ghost t = targets_of(instruction.deep_view());
        match instruction {
            Instruction::UnwindStart { target } => {
                push_unique(&mut successors, target.as_str());
                proof {
                    lemma_with_one(before, target@);
                }
            },
            Instruction::Jump { target } => {
                push_unique(&mut successors, target.as_str());
                proof {
                    lemma_with_one(before, target@);
                }
            },
            Instruction::Branch { condition: _, true_block, false_block } => {
                push_unique(&mut successors, true_block.as_str());
                push_unique(&mut successors, false_block.as_str());
                proof {
                    lemma_with_one(before, true_block@);
                    assert(t.drop_last() =~= seq![true_block@]);
                }
            },
            Instruction::Switch { discr: _, targets, otherwise } => {
                let ghost ts = targets.deep_view().map_values(|t: (ConstantModel, Text)| t.1);
                assert(ts.take(0) =~= Seq::<Text>::empty());
                for k in 0..targets.len()
                    invariant
                        ts == targets.deep_view().map_values(|t: (ConstantModel, Text)| t.1),
                        successors.deep_view() == with_values(before, ts.take(k as int)),
                {
                    assert(ts.take(k + 1).drop_last() =~= ts.take(k as int));
                    assert(ts.take(k + 1).last() == targets@[k as int].1@);
                    push_unique(&mut successors, targets[k].1.as_str());
                }
                assert(ts.take(targets@.len() as int) =~= ts);
                push_unique(&mut successors, otherwise.as_str());
                assert(t.drop_last() =~= ts);
            },
            _ => {
                assert(t =~= Seq::<Text>::empty());
            },
        }
    }
    assert(all.take(block.instructions@.len() as int) =~= all);
    successors
}

proof fn lemma_with_one(values: Seq<Text>, value: Text)
    ensures
        with_values(values, seq![value]) == with_value(values, value),
{
    assert(seq![value].drop_last() =~= Seq::<Text>::empty());
    assert(with_values(values, seq![value].drop_last()) == values);
}

proof fn lemma_with_values(values: Seq<Text>, more: Seq<Text>)
    requires
        values.no_duplicates(),
    ensures
        with_values(values, more).no_duplicates(),
        forall|t: Text| #[trigger] with_values(values, more).contains(t) <==> values.contains(t)
            || more.contains(t),
    decreases more.len(),
{
    if more.len() > 0 {
        lemma_with_values(values, more.drop_last());
        let w = with_values(values, more.drop_last());
        let r = with_values(values, more);
        assert(more =~= more.drop_last().push(more.last()));
        assert forall|t: Text| #[trigger] r.contains(t) <==> values.contains(t) || more.contains(t)
            by {
            assert(more.contains(t) <==> more.drop_last().contains(t) || t == more.last()) by {
                if more.drop_last().contains(t) {
                    let k = choose|k: int| 0 <= k < more.drop_last().len()
                        && more.drop_last()[k] == t;
                    assert(more[k] == t);
                }
                assert(more[more.len() - 1] == more.last());
            }
            if !w.contains(more.last()) {
                assert(r == w.push(more.last()));
                if w.contains(t) {
                    let k = choose|k: int| 0 <= k < w.len() && w[k] == t;
                    assert(r[k] == t);
                }
                assert(r[w.len() as int] == more.last());
            }
            assert(w.contains(t) <==> values.contains(t) || more.drop_last().contains(t));
        }
    } else {
        assert(more =~= Seq::<Text>::empty());
    }
}

/// Whether some instruction transfers to a label.
pub open spec fn transfers(instructions: Seq<InstructionModel>, label: Text) -> bool {
    exists|i: int| 0 <= i < instructions.len()
        && #[trigger] targets_of(instructions[i]).contains(label)
}

/// A block's successors are listed once each, and they are exactly the labels that one of its
/// instructions transfers to.
pub proof fn successors_are_the_targets(instructions: Seq<InstructionModel>)
    ensures
        successors_of(instructions).no_duplicates(),
        forall|label: Text| #[trigger] successors_of(instructions).contains(label)
            <==> transfers(instructions, label),
    decreases instructions.len(),
{
    if instructions.len() > 0 {
        let front = instructions.drop_last();
        successors_are_the_targets(front);
        lemma_with_values(successors_of(front), targets_of(instructions.last()));
        assert forall|label: Text| #[trigger] successors_of(instructions).contains(label)
            <==> transfers(instructions, label) by {
            assert(successors_of(front).contains(label) <==> transfers(front, label));
            if transfers(front, label) {
                let i = choose|i: int| 0 <= i < front.len()
                    && #[trigger] targets_of(front[i]).contains(label);
                assert(targets_of(instructions[i]).contains(label));
            }
            if transfers(instructions, label) {
                let i = choose|i: int| 0 <= i < instructions.len()
                    && #[trigger] targets_of(instructions[i]).contains(label);
                if i < front.len() {
                    assert(targets_of(front[i]).contains(label));
                }
            }
            if targets_of(instructions.last()).contains(label) {
                assert(targets_of(instructions[instructions.len() - 1]).contains(label));
            }
        }
    }
}

/// The successors of each block.
pub open spec fn successor_model(body: CodeBlockModel) -> Map<Text, Seq<Text>> {
    body.basic_blocks.map_values(|block: BasicBlockModel| successors_of(block.instructions))
}

/// The successors of each block.
pub fn successor_map(body: &CodeBlock) -> (r: NameMap<Vec<String>>)
    ensures
        r.deep_view() == successor_model(body.deep_view()),
{
    let blocks = &body.basic_blocks;
    blocks.check();
    let ghost model = successor_model(body.deep_view());
    let mut r: NameMap<Vec<String>> = NameMap::new();
    let n: usize = blocks.len();
    for i in 0..n
        invariant
            n == blocks.keys().len(),
            *blocks == body.basic_blocks,
            blocks.consistent(),
            model == successor_model(body.deep_view()),
            r.keys() == blocks.keys().take(i as int),
            r.map().dom() =~= Set::new(|k: Text| blocks.keys().take(i as int).contains(k)),
            forall|k: Text| #[trigger] r.map().dom().contains(k)
                ==> r.map()[k].deep_view() == model[k],
    {
        let ghost key = blocks.keys()[i as int];
        let ghost keys0 = blocks.keys().take(i as int);
        let ghost keys1 = blocks.keys().take(i + 1);
        proof {
            assert(keys1 =~= keys0.push(key));
            assert(!keys0.contains(key));
            assert forall|k: Text| keys1.contains(k) <==> keys0.contains(k) || k == key by {
                if keys0.contains(k) {
                    let m = choose|m: int| 0 <= m < keys0.len() && keys0[m] == k;
                    assert(keys1[m] == k);
                }
                assert(keys1[i as int] == key);
            }
            assert(model[key] == successors_of(blocks.values()[i as int].deep_view().instructions));
        }
        let successors = block_successors(blocks.value_at(i));
        r.insert(blocks.key_at(i).clone(), successors);
    }
    assert(blocks.keys().take(blocks.keys().len() as int) =~= blocks.keys());
    assert(r.deep_view() =~= model);
    r
}

/// Whether an instruction starts a region that unwinds to a label.
pub open spec fn unwinds_to(instruction: InstructionModel, label: Text) -> bool {
    instruction matches InstructionModel::UnwindStart { target } && target == label
}

/// Whether an instruction transfers to a label in the normal course.
pub open spec fn continues_to(instruction: InstructionModel, label: Text) -> bool {
    !(instruction is UnwindStart) && targets_of(instruction).contains(label)
}

/// Whether a label is the target of an unwind region and of no normal transfer.
pub open spec fn unwind_only(instructions: Seq<InstructionModel>, label: Text) -> bool {
    &&& exists|i: int| 0 <= i < instructions.len() && #[trigger] unwinds_to(instructions[i], label)
    &&& forall|i: int| 0 <= i < instructions.len() ==> !(
        #[trigger] continues_to(instructions[i], label)
    )
}

/// Whether an instruction transfers to a label in the normal course.
fn instruction_continues_to(instruction: &Instruction, label: &str) -> (r: bool)
    ensures
        r == continues_to(instruction.deep_view(), label@),
{
    let ghost t = targets_of(instruction.deep_view());
    match instruction {
        Instruction::Jump { target } => {
            assert(t[0] == target@);
            same(target.as_str(), label)
        },
        Instruction::Branch { condition: _, true_block, false_block } => {
            assert(t[0] == true_block@ && t[1] == false_block@);
            same(true_block.as_str(), label) || same(false_block.as_str(), label)
        },
        Instruction::Switch { discr: _, targets, otherwise } => {
            assert(t.len() == targets@.len() + 1);
            assert(t[targets@.len() as int] == otherwise@);
            if same(otherwise.as_str(), label) {
                return true;
            }
            for k in 0..targets.len()
                invariant
                    instruction is Switch,
                    t == targets_of(instruction.deep_view()),
                    t.len() == targets@.len() + 1,
                    forall|j: int| 0 <= j < targets@.len() ==> t[j] == (#[trigger] targets@[j]).1@,
                    forall|j: int| 0 <= j < k ==> t[j] != label@,
            {
                if same(targets[k].1.as_str(), label) {
                    assert(t[k as int] == label@);
                    return true;
                }
            }
            false
        },
        _ => false,
    }
}

/// Whether a label is the target of an unwind region of the block and of no normal transfer.
fn is_unwind_only(block: &BasicBlock, label: &str) -> (r: bool)
    ensures
        r == unwind_only(block.deep_view().instructions, label@),
{
    let ghost all = block.deep_view().instructions;
    let mut unwinds: bool = false;
    for i in 0..block.instructions.len()
        invariant
            all == block.deep_view().instructions,
            unwinds == exists|k: int| 0 <= k < i && #[trigger] unwinds_to(all[k], label@),
            forall|k: int| 0 <= k < i ==> !(#[trigger] continues_to(all[k], label@)),
    {
        assert(all[i as int] == block.instructions@[i as int].deep_view());
        if instruction_continues_to(&block.instructions[i], label) {
            assert(continues_to(all[i as int], label@));
            return false;
        }
        if let Instruction::UnwindStart { target } = &block.instructions[i] {
            if same(target.as_str(), label) {
                assert(unwinds_to(all[i as int], label@));
                unwinds = true;
            }
        }
    }
    unwinds
}

/// The distinct labels that the block only reaches by unwinding.
pub fn block_unwind_only_successors(block: &BasicBlock) -> (r: Vec<String>)
    ensures
        r.deep_view().no_duplicates(),
        forall|label: Text| #[trigger] r.deep_view().contains(label) <==> unwind_only(
            block.deep_view().instructions,
            label,
        ),
{
    let all = block_successors(block);
    let ghost instructions = block.deep_view().instructions;
    proof {
        successors_are_the_targets(instructions);
    }
    let ghost labels = all.deep_view();
    let mut r: Vec<String> = Vec::new();
    for i in 0..all.len()
        invariant
            labels == all.deep_view(),
            instructions == block.deep_view().instructions,
            labels.no_duplicates(),
            r.deep_view().no_duplicates(),
            forall|k: int| 0 <= k < r@.len() ==> labels.take(i as int).contains((#[trigger] r@[k])@)
                && unwind_only(instructions, r@[k]@),
            forall|k: int| 0 <= k < i && unwind_only(
                instructions,
                #[trigger] labels[k],
            ) ==> r.deep_view().contains(labels[k]),
    {
        let ghost r0 = r.deep_view();
        let ghost rv = r@;
        assert(labels[i as int] == all@[i as int]@);
        if is_unwind_only(block, all[i].as_str()) {
            assert(!r0.contains(labels[i as int])) by {
                if r0.contains(labels[i as int]) {
                    let k = choose|k: int| 0 <= k < r0.len() && r0[k] == labels[i as int];
                    assert(labels.take(i as int).contains(r@[k]@));
                    let m = choose|m: int| 0 <= m < i && labels.take(i as int)[m] == r@[k]@;
                    assert(labels[m] == labels[i as int]);
                }
            }
            r.push(all[i].clone());
            assert(r.deep_view() =~= r0.push(labels[i as int]));
            assert(r.deep_view()[r0.len() as int] == labels[i as int]);
        }
        proof {
            assert forall|k: int| 0 <= k < r@.len()
                implies labels.take(i + 1).contains((#[trigger] r@[k])@)
                && unwind_only(instructions, r@[k]@) by {
                if k < rv.len() {
                    assert(r@[k] == rv[k]);
                    let m = choose|m: int| 0 <= m < i && labels.take(i as int)[m] == rv[k]@;
                    assert(labels.take(i + 1)[m] == rv[k]@);
                } else {
                    assert(labels.take(i + 1)[i as int] == labels[i as int]);
                }
            }
            assert forall|k: int| 0 <= k < i + 1 && unwind_only(
                instructions,
                #[trigger] labels[k],
            ) implies r.deep_view().contains(labels[k]) by {
                if k < i {
                    let m = choose|m: int| 0 <= m < r0.len() && r0[m] == labels[k];
                    assert(r.deep_view()[m] == labels[k]);
                }
            }
        }
    }
    proof {
        assert forall|label: Text| #[trigger] r.deep_view().contains(label)
            <==> unwind_only(instructions, label) by {
            if r.deep_view().contains(label) {
                let k = choose|k: int| 0 <= k < r.deep_view().len() && r.deep_view()[k] == label;
                assert(r@[k]@ == label);
            }
            if unwind_only(instructions, label) {
                let i = choose|i: int| 0 <= i < instructions.len() && #[trigger] unwinds_to(
                    instructions[i],
                    label,
                );
                assert(targets_of(instructions[i])[0] == label);
                assert(targets_of(instructions[i]).contains(label));
                assert(transfers(instructions, label));
                assert(labels.contains(label));
                let k = choose|k: int| 0 <= k < labels.len() && labels[k] == label;
                assert(r.deep_view().contains(labels[k]));
            }
        }
    }
    r
}

/// A variable of a given type; the same name may be used at several types.
#[derive(Debug, PartialEq, Eq)]
pub struct Variable {
    pub name: String,
    pub ty: Type,
}

/// The model of a [`Variable`]: its name and its type.
pub type VariableModel = (Text, TypeModel);

impl DeepView for Variable {
    type V = VariableModel;

    open spec fn deep_view(&self) -> VariableModel {
        (self.name@, self.ty.deep_view())
    }
}

impl Duplicate for Variable {
    fn dup(&self) -> (r: Self) {
        Variable { name: self.name.clone(), ty: self.ty.dup() }
    }
}

/// Whether two variables have the same name and type.
pub fn same_variable(a: &Variable, b: &Variable) -> (r: bool)
    ensures
        r == (a.deep_view() == b.deep_view()),
{
    same(a.name.as_str(), b.name.as_str()) && same_type(&a.ty, &b.ty)
}

/// The types at which each name is used.
pub type VariableTypes = NameMap<Vec<Type>>;

/// The operands that an instruction reads, in its order.
pub open spec fn operands_of(instruction: InstructionModel) -> Seq<OperandModel> {
    match instruction {
        InstructionModel::Binary { op1, op2, .. } => seq![op1, op2],
        InstructionModel::Compare { op1, op2, .. } => seq![op1, op2],
        InstructionModel::Not { src, .. } => seq![src],
        InstructionModel::Neg { src, .. } => seq![src],
        InstructionModel::Move { src, .. } => seq![src],
        InstructionModel::Branch { condition, .. } => seq![condition],
        InstructionModel::Return { operand } => match operand {
            Some(value) => seq![value],
            None => Seq::empty(),
        },
        InstructionModel::CallIndirect { function_ptr, args, .. } => seq![function_ptr] + args,
        InstructionModel::InvokeInterface { args, operand, .. } => seq![operand] + args,
        InstructionModel::InvokeVirtual { args, operand, .. } => seq![operand] + args,
        InstructionModel::InvokeStatic { args, .. } => args,
        InstructionModel::InvokeRustStatic { args, .. } => args,
        InstructionModel::Switch { discr, .. } => seq![discr],
        InstructionModel::NewArray { size, .. } => seq![size],
        InstructionModel::ArrayStore { index, value, .. } => seq![index, value],
        InstructionModel::ArrayFill { value, .. } => seq![value],
        InstructionModel::ArrayGet { array, index, .. } => seq![array, index],
        InstructionModel::Length { array, .. } => seq![array],
        InstructionModel::ConstructObject { args, .. } => args.map_values(
            |a: (OperandModel, TypeModel)| a.0,
        ),
        InstructionModel::SetField { value, .. } => seq![value],
        InstructionModel::GetField { object, .. } => seq![object],
        InstructionModel::Cast { op, .. } => seq![op],
        _ => Seq::empty(),
    }
}

fn push_operands<'a>(r: &mut Vec<&'a Operand>, args: &'a Vec<Operand>)
    ensures
        final(r).deep_view() == old(r).deep_view() + args.deep_view(),
{
    let ghost r0 = r.deep_view();
    for i in 0..args.len()
        invariant
            r.deep_view() == r0 + args.deep_view().take(i as int),
    {
        assert(
            args.deep_view().take(i + 1) =~= args.deep_view().take(i as int).push(
                args@[i as int].deep_view(),
            )
        );
        let ghost r1 = r.deep_view();
        r.push(&args[i]);
        assert(r.deep_view() =~= r1.push(args@[i as int].deep_view()));
    }
    assert(args.deep_view().take(args@.len() as int) =~= args.deep_view());
    assert(r0 + args.deep_view() =~= r.deep_view());
}

/// The operands that an instruction reads, in its order.
pub fn instruction_operands<'a>(instruction: &'a Instruction) -> (r: Vec<&'a Operand>)
    ensures
        r.deep_view() == operands_of(instruction.deep_view()),
{
    let mut r: Vec<&'a Operand> = Vec::new();
    assert(r.deep_view() =~= Seq::<OperandModel>::empty());
    match instruction {
        Instruction::Binary { op: _, dest: _, op1, op2 } => {
            r.push(op1);
            r.push(op2);
        },
        Instruction::Compare { op: _, dest: _, op1, op2 } => {
            r.push(op1);
            r.push(op2);
        },
        Instruction::Not { dest: _, src } => r.push(src),
        Instruction::Neg { dest: _, src } => r.push(src),
        Instruction::Move { dest: _, src } => r.push(src),
        Instruction::Branch { condition, true_block: _, false_block: _ } => r.push(condition),
        Instruction::Return { operand } => match operand {
            Some(value) => r.push(value),
            None => {},
        },
        Instruction::CallIndirect { dest: _, function_ptr, signature: _, args } => {
            r.push(function_ptr);
            assert(r.deep_view() =~= seq![function_ptr.deep_view()]);
            push_operands(&mut r, args);
        },
        Instruction::InvokeInterface { dest: _, class_name: _, method_name: _, method_ty: _, args,
            operand } => {
            r.push(operand);
            assert(r.deep_view() =~= seq![operand.deep_view()]);
            push_operands(&mut r, args);
        },
        Instruction::InvokeVirtual { dest: _, class_name: _, method_name: _, method_ty: _, args,
            operand } => {
            r.push(operand);
            assert(r.deep_view() =~= seq![operand.deep_view()]);
            push_operands(&mut r, args);
        },
        Instruction::InvokeStatic { dest: _, class_name: _, method_name: _, method_ty: _,
            args } => {
            push_operands(&mut r, args);
        },
        Instruction::InvokeRustStatic { dest: _, class_name: _, method_name: _, method_ty: _,
            args } => {
            push_operands(&mut r, args);
        },
        Instruction::Switch { discr, targets: _, otherwise: _ } => r.push(discr),
        Instruction::NewArray { dest: _, element_type: _, size } => r.push(size),
        Instruction::ArrayStore { array: _, index, value, copy_value: _ } => {
            r.push(index);
            r.push(value);
        },
        Instruction::ArrayFill { array: _, value } => r.push(value),
        Instruction::ArrayGet { dest: _, array, index } => {
            r.push(array);
            r.push(index);
        },
        Instruction::Length { dest: _, array } => r.push(array),
        Instruction::ConstructObject { dest: _, class_name: _, args } => {
            for i in 0..args.len()
                invariant
                    r@.len() == i,
                    forall|k: int| 0 <= k < i
                        ==> (#[trigger] r@[k]).deep_view() == args@[k].0.deep_view(),
            {
                r.push(&args[i].0);
            }
        },
        Instruction::SetField { object: _, field_name: _, value, field_ty: _,
            owner_class: _ } => r.push(value),
        Instruction::GetField { dest: _, object, field_name: _, field_ty: _,
            owner_class: _ } => r.push(object),
        Instruction::Cast { op, ty: _, dest: _ } => r.push(op),
        _ => {},
    }
    assert(r.deep_view() =~= operands_of(instruction.deep_view()));
    r
}

/// The type of the elements behind an indexable value.
pub open spec fn element_of(ty: TypeModel) -> Option<TypeModel> {
    match ty {
        Type::Array(element) => Some(*element),
        Type::Slice(element) => Some(*element),
        Type::MutableReference(element) => Some(*element),
        Type::Pointer(element) => Some(*element),
        _ => None,
    }
}

/// The type of the elements behind an indexable value.
fn element_type_of(ty: Type) -> (r: Option<Type>)
    ensures
        r.deep_view() == element_of(ty.deep_view()),
{
    match ty {
        Type::Array(element) => Some(*element),
        Type::Slice(element) => Some(*element),
        Type::MutableReference(element) => Some(*element),
        Type::Pointer(element) => Some(*element),
        _ => None,
    }
}

/// The variable that an instruction defines, with its type.
pub open spec fn definition_of(instruction: InstructionModel) -> Option<VariableModel> {
    match instruction {
        InstructionModel::Binary { dest, op1, .. } => Some((dest, operand_type(op1))),
        InstructionModel::Compare { dest, .. } => Some((dest, Type::Boolean)),
        InstructionModel::Not { dest, src } => Some((dest, operand_type(src))),
        InstructionModel::Neg { dest, src } => Some((dest, operand_type(src))),
        InstructionModel::Move { dest, src } => Some((dest, operand_type(src))),
        InstructionModel::CallIndirect { dest, signature, .. } => call_definition(dest, signature),
        InstructionModel::InvokeInterface { dest, method_ty, .. } => call_definition(dest,
            method_ty),
        InstructionModel::InvokeVirtual { dest, method_ty, .. } => call_definition(dest, method_ty),
        InstructionModel::InvokeStatic { dest, method_ty, .. } => call_definition(dest, method_ty),
        InstructionModel::InvokeRustStatic { dest, method_ty, .. } => call_definition(dest,
            method_ty),
        InstructionModel::CreateFunctionPointer { dest, interface_name } => Some(
            (dest, Type::Interface(interface_name)),
        ),
        InstructionModel::NewArray { dest, element_type, .. } => Some(
            (dest, Type::Array(Box::new(element_type))),
        ),
        InstructionModel::ArrayGet { dest, array, .. } => match element_of(operand_type(array)) {
            Some(element) => Some((dest, element)),
            None => None,
        },
        InstructionModel::Length { dest, .. } => Some((dest, Type::I32)),
        InstructionModel::ConstructObject { dest, class_name, .. } => Some(
            (dest, Type::Class(class_name)),
        ),
        InstructionModel::GetField { dest, field_ty, .. } => Some((dest, field_ty)),
        InstructionModel::Cast { dest, ty, .. } => Some((dest, ty)),
        _ => None,
    }
}

/// The variable that a call defines: the one that takes its result, if there is one.
pub open spec fn call_definition(
    dest: Option<Text>,
    signature: SignatureModel,
) -> Option<VariableModel> {
    match dest {
        Some(name) => Some((name, signature.ret)),
        None => None,
    }
}

fn call_definition_type(dest: &Option<String>, signature: &Signature) -> (r: Option<(String, Type)>)
    ensures
        r.deep_view() == call_definition(dest.deep_view(), signature.deep_view()),
{
    match dest {
        Some(name) => Some((name.clone(), signature.ret.dup())),
        None => None,
    }
}

/// The variable that an instruction defines, with its type.
pub fn instruction_definition_type(instruction: &Instruction) -> (r: Option<(String, Type)>)
    ensures
        r.deep_view() == definition_of(instruction.deep_view()),
{
    match instruction {
        Instruction::Binary { op: _, dest, op1, op2: _ } => Some((dest.clone(), op1.get_type())),
        Instruction::Compare { op: _, dest, op1: _, op2: _ } => Some((dest.clone(), Type::Boolean)),
        Instruction::Not { dest, src } => Some((dest.clone(), src.get_type())),
        Instruction::Neg { dest, src } => Some((dest.clone(), src.get_type())),
        Instruction::Move { dest, src } => Some((dest.clone(), src.get_type())),
        Instruction::CallIndirect { dest, function_ptr: _, signature, args: _ } => {
            call_definition_type(dest, signature)
        },
        Instruction::InvokeInterface { dest, class_name: _, method_name: _, method_ty, args: _,
            operand: _ } => {
            call_definition_type(dest, method_ty)
        },
        Instruction::InvokeVirtual { dest, class_name: _, method_name: _, method_ty, args: _,
            operand: _ } => {
            call_definition_type(dest, method_ty)
        },
        Instruction::InvokeStatic { dest, class_name: _, method_name: _, method_ty, args: _ } => {
            call_definition_type(dest, method_ty)
        },
        Instruction::InvokeRustStatic { dest, class_name: _, method_name: _, method_ty,
            args: _ } => {
            call_definition_type(dest, method_ty)
        },
        Instruction::CreateFunctionPointer { dest, interface_name } => Some(
            (dest.clone(), Type::Interface(interface_name.clone())),
        ),
        Instruction::NewArray { dest, element_type, size: _ } => Some(
            (dest.clone(), Type::Array(Box::new(element_type.dup()))),
        ),
        Instruction::ArrayGet { dest, array, index: _ } => match element_type_of(array.get_type()) {
            Some(element) => Some((dest.clone(), element)),
            None => None,
        },
        Instruction::Length { dest, array: _ } => Some((dest.clone(), Type::I32)),
        Instruction::ConstructObject { dest, class_name, args: _ } => Some(
            (dest.clone(), Type::Class(class_name.clone())),
        ),
        Instruction::GetField { dest, object: _, field_name: _, field_ty, owner_class: _ } => Some(
            (dest.clone(), field_ty.dup()),
        ),
        Instruction::Cast { op: _, ty, dest } => Some((dest.clone(), ty.dup())),
        _ => None,
    }
}

/// The variables among operands, without those that have no JVM value.
pub open spec fn variables_in(operands: Seq<OperandModel>) -> Seq<VariableModel>
    decreases operands.len(),
{
    if operands.len() == 0 {
        Seq::empty()
    } else {
        let rest = variables_in(operands.drop_last());
        match operands.last() {
            Operand::Variable { name, ty } => if has_value(ty) {
                rest.push((name, ty))
            } else {
                rest
            },
            _ => rest,
        }
    }
}

/// The exception that an unwind target finds.
pub open spec fn unwind_exception() -> VariableModel {
    (UNWIND_EXCEPTION_LOCAL@, Type::Class(THROWABLE_CLASS@))
}

/// A name at each of its types.
pub open spec fn at_types(name: Text, types: Map<Text, Seq<TypeModel>>) -> Seq<VariableModel> {
    if types.dom().contains(name) {
        types[name].map_values(|ty: TypeModel| (name, ty))
    } else {
        Seq::empty()
    }
}

/// The variables that an instruction reads: those among its operands, then the array or object that
/// it changes or the exception that it throws again.
pub open spec fn uses_of(instruction: InstructionModel, types: Map<Text, Seq<TypeModel>>)
    -> Seq<VariableModel> {
    let read = variables_in(operands_of(instruction));
    match instruction {
        InstructionModel::ArrayStore { array, .. } => read + at_types(array, types),
        InstructionModel::ArrayFill { array, .. } => read + at_types(array, types),
        InstructionModel::SetField { object, owner_class, .. } => read.push(
            (object, Type::Class(owner_class)),
        ),
        InstructionModel::Rethrow => read.push(unwind_exception()),
        _ => read,
    }
}

fn push_at_types(uses: &mut Vec<Variable>, name: &String, variable_types: &VariableTypes)
    ensures
        final(uses).deep_view() == old(uses).deep_view() + at_types(
            name@,
            variable_types.deep_view(),
        ),
{
    let ghost u0 = uses.deep_view();
    if let Some(types) = variable_types.get(name.as_str()) {
        let ghost more = at_types(name@, variable_types.deep_view());
        assert(more =~= types.deep_view().map_values(|ty: TypeModel| (name@, ty)));
        for i in 0..types.len()
            invariant
                more.len() == types@.len(),
                forall|k: int| 0 <= k < more.len() ==> #[trigger] more[k] == (
                    name@,
                    types@[k].deep_view(),
                ),
                uses.deep_view() == u0 + more.take(i as int),
        {
            let ghost u1 = uses.deep_view();
            uses.push(Variable { name: name.clone(), ty: types[i].dup() });
            assert(uses.deep_view() =~= u1.push(more[i as int]));
            assert(more.take(i + 1) =~= more.take(i as int).push(more[i as int]));
        }
        assert(more.take(more.len() as int) =~= more);
    }
    assert(uses.deep_view() =~= u0 + at_types(name@, variable_types.deep_view()));
}

/// The variables that an instruction reads.
pub fn instruction_uses(
    instruction: &Instruction,
    variable_types: &VariableTypes,
) -> (uses: Vec<Variable>)
    ensures
        uses.deep_view() == uses_of(instruction.deep_view(), variable_types.deep_view()),
{
    let operands = instruction_operands(instruction);
    let mut uses: Vec<Variable> = Vec::new();
    let ghost all = operands.deep_view();
    assert(all.take(0) =~= Seq::<OperandModel>::empty());
    assert(uses.deep_view() =~= Seq::<VariableModel>::empty());
    for i in 0..operands.len()
        invariant
            all == operands.deep_view(),
            uses.deep_view() == variables_in(all.take(i as int)),
    {
        let ghost u = uses.deep_view();
        assert(all.take(i + 1).drop_last() =~= all.take(i as int));
        assert(all[i as int] == operands@[i as int].deep_view());
        match operands[i] {
            Operand::Variable { name, ty } => {
                if ty.has_jvm_value() {
                    uses.push(Variable { name: name.clone(), ty: ty.dup() });
                    assert(uses.deep_view() =~= u.push((name@, ty.deep_view())));
                }
            },
            _ => {},
        }
    }
    assert(all.take(all.len() as int) =~= all);
    let ghost u = uses.deep_view();
    match instruction {
        Instruction::ArrayStore { array, index: _, value: _, copy_value: _ } => push_at_types(
            &mut uses,
            array,
            variable_types,
        ),
        Instruction::ArrayFill { array, value: _ } => push_at_types(
            &mut uses,
            array,
            variable_types,
        ),
        Instruction::SetField { object, field_name: _, value: _, field_ty: _, owner_class } => {
            uses.push(Variable { name: object.clone(), ty: Type::Class(owner_class.clone()) });
            assert(uses.deep_view() =~= u.push((object@, Type::Class(owner_class@))));
        },
        Instruction::Rethrow => {
            uses.push(Variable {
                name: UNWIND_EXCEPTION_LOCAL.to_string(),
                ty: Type::Class(THROWABLE_CLASS.to_string()),
            });
            assert(uses.deep_view() =~= u.push(unwind_exception()));
        },
        _ => {},
    }
    uses
}

/// Whether an instruction defines a name with a JVM value.
pub open spec fn defines(instruction: InstructionModel, name: Text) -> bool {
    definition_of(instruction) matches Some(d) && d.0 == name && has_value(d.1)
}

/// The variables that an instruction defines: at most one, and none without a JVM value.
pub open spec fn definitions_of(instruction: InstructionModel) -> Seq<VariableModel> {
    match definition_of(instruction) {
        Some(d) => if has_value(d.1) {
            seq![d]
        } else {
            Seq::empty()
        },
        None => Seq::empty(),
    }
}

/// The variables that an instruction defines: at most one, and none without a JVM value.
pub fn instruction_definitions(instruction: &Instruction) -> (r: Vec<Variable>)
    ensures
        r.deep_view() == definitions_of(instruction.deep_view()),
{
    let mut r: Vec<Variable> = Vec::new();
    if let Some((name, ty)) = instruction_definition_type(instruction) {
        if ty.has_jvm_value() {
            r.push(Variable { name, ty });
        }
    }
    assert(r.deep_view() =~= definitions_of(instruction.deep_view()));
    r
}

/// The order of variables: by name, then by the descriptor of the type.
pub open spec fn variable_less(a: VariableModel, b: VariableModel) -> bool {
    text_less(a.0, b.0) || (a.0 == b.0 && text_less(descriptor(a.1), descriptor(b.1)))
}

/// Compares two variables by name and then by the descriptor of their type.
pub fn compare_variables(left: &Variable, right: &Variable) -> (r: std::cmp::Ordering)
    ensures
        r is Less <==> variable_less(left.deep_view(), right.deep_view()),
        r is Greater <==> variable_less(right.deep_view(), left.deep_view()),
        r is Equal <==> left.name@ == right.name@ && descriptor(left.ty.deep_view()) == descriptor(
            right.ty.deep_view(),
        ),
{
    let x = left.ty.to_jvm_descriptor();
    let y = right.ty.to_jvm_descriptor();
    proof {
        variable_less_is_an_order(left.deep_view(), right.deep_view());
        text_less_irreflexive(left.name@);
        text_less_irreflexive(right.name@);
        text_less_irreflexive(x@);
    }
    if less(left.name.as_str(), right.name.as_str()) {
        std::cmp::Ordering::Less
    } else if less(right.name.as_str(), left.name.as_str()) {
        std::cmp::Ordering::Greater
    } else {
        proof {
            if left.name@ != right.name@ {
                text_less_total(left.name@, right.name@);
            }
            if x@ != y@ {
                text_less_total(x@, y@);
            }
        }
        if less(x.as_str(), y.as_str()) {
            std::cmp::Ordering::Less
        } else if less(y.as_str(), x.as_str()) {
            std::cmp::Ordering::Greater
        } else {
            std::cmp::Ordering::Equal
        }
    }
}

/// Whether one variable comes before another.
fn comes_before(left: &Variable, right: &Variable) -> (r: bool)
    ensures
        r == variable_less(left.deep_view(), right.deep_view()),
{
    matches!(compare_variables(left, right), std::cmp::Ordering::Less)
}

/// Of two variables not both come before the other.
pub proof fn variable_less_is_an_order(a: VariableModel, b: VariableModel)
    ensures
        !(variable_less(a, b) && variable_less(b, a)),
{
    if variable_less(a, b) && variable_less(b, a) {
        variable_less_transitive(a, b, a);
        text_less_irreflexive(a.0);
        text_less_irreflexive(descriptor(a.1));
    }
}

/// The order of variables is transitive.
pub proof fn variable_less_transitive(a: VariableModel, b: VariableModel, c: VariableModel)
    requires
        variable_less(a, b),
        variable_less(b, c),
    ensures
        variable_less(a, c),
{
    if text_less(a.0, b.0) && text_less(b.0, c.0) {
        text_less_transitive(a.0, b.0, c.0);
    } else if a.0 == b.0 && b.0 == c.0 {
        text_less_transitive(descriptor(a.1), descriptor(b.1), descriptor(c.1));
    }
}

/// Whether no variable stands in front of one that comes before it.
pub open spec fn variables_sorted(list: Seq<VariableModel>) -> bool {
    forall|i: int, j: int| 0 <= i < j < list.len() ==> !variable_less(
        #[trigger] list[j],
        #[trigger] list[i],
    )
}

/// The position of a variable.
pub fn variable_position(list: &Vec<Variable>, variable: &Variable) -> (r: Option<usize>)
    ensures
        r is Some <==> list.deep_view().contains(variable.deep_view()),
        r matches Some(i) ==> i < list@.len()
            && list@[i as int].deep_view() == variable.deep_view(),
{
    let mut i: usize = 0;
    while i < list.len()
        invariant
            i <= list@.len(),
            forall|k: int| 0 <= k < i ==> (#[trigger] list@[k]).deep_view() != variable.deep_view(),
        decreases list@.len() - i,
    {
        if same_variable(&list[i], variable) {
            assert(list.deep_view()[i as int] == variable.deep_view());
            return Some(i);
        }
        i = i + 1;
    }
    proof {
        if list.deep_view().contains(variable.deep_view()) {
            let k = choose|k: int| 0 <= k < list.deep_view().len()
                && list.deep_view()[k] == variable.deep_view();
            assert(list@[k].deep_view() == variable.deep_view());
        }
    }
    None
}

/// Puts a variable into a sorted list unless it is there already.
pub fn insert_variable(list: &mut Vec<Variable>, variable: Variable)
    requires
        old(list).deep_view().no_duplicates(),
        variables_sorted(old(list).deep_view()),
    ensures
        final(list).deep_view().no_duplicates(),
        variables_sorted(final(list).deep_view()),
        forall|v: VariableModel| #[trigger] final(list).deep_view().contains(v)
            <==> old(list).deep_view().contains(v)
            || v == variable.deep_view(),
{
    if variable_position(list, &variable).is_some() {
        return;
    }
    let ghost before = list.deep_view();
    let ghost value = variable.deep_view();
    let mut i: usize = 0;
    while i < list.len() && !comes_before(&variable, &list[i])
        invariant
            i <= list@.len(),
            before == list.deep_view(),
            value == variable.deep_view(),
            forall|k: int| 0 <= k < i ==> !variable_less(value, #[trigger] before[k]),
        decreases list@.len() - i,
    {
        i = i + 1;
    }
    list.insert(i, variable);
    proof {
        let after = list.deep_view();
        assert(after =~= before.insert(i as int, value));
        assert forall|v: VariableModel| #[trigger] after.contains(v) <==> before.contains(v)
            || v == value by {
            if before.contains(v) {
                let k = choose|k: int| 0 <= k < before.len() && before[k] == v;
                assert(after[if k < i { k } else { k + 1 }] == v);
            }
            assert(after[i as int] == value);
            if after.contains(v) && v != value {
                let k = choose|k: int| 0 <= k < after.len() && after[k] == v;
                assert(before[if k < i { k } else { k - 1 }] == v);
            }
        }
        assert(after.no_duplicates());
        assert forall|a: int, b: int| 0 <= a < b < after.len() implies !variable_less(
            #[trigger] after[b],
            #[trigger] after[a],
        ) by {
            if a < i && b > i {
                assert(!variable_less(before[b - 1], before[a]));
            } else if a < i && b < i {
                assert(!variable_less(before[b], before[a]));
            } else if a > i {
                assert(!variable_less(before[b - 1], before[a - 1]));
            } else if a == i {
                // The new variable comes before its right neighbour, which comes no later than `b`.
                if variable_less(before[b - 1], value) {
                    variable_less_transitive(before[b - 1], value, before[i as int]);
                    variable_less_is_an_order(before[i as int], before[i as int]);
                    if b - 1 > i {
                        assert(!variable_less(before[b - 1], before[i as int]));
                    }
                }
            }
        }
    }
}

/// Whether a table gives a name a type.
pub open spec fn has_type(types: Map<Text, Seq<TypeModel>>, name: Text, ty: TypeModel) -> bool {
    types.dom().contains(name) && types[name].contains(ty)
}

/// Adds a type to those of a name, unless it is there already or has no JVM value.
pub fn insert_type(types: &mut VariableTypes, name: String, ty: Type)
    ensures
        forall|n: Text, t: TypeModel| #[trigger] has_type(
            final(types).deep_view(),
            n,
            t,
        ) <==> has_type(
            old(types).deep_view(),
            n,
            t,
        ) || (n == name@ && t == ty.deep_view() && has_value(t)),
{
    if !ty.has_jvm_value() {
        return;
    }
    let ghost before = types.deep_view();
    let mut list: Vec<Type> = Vec::new();
    if let Some(known) = types.get(name.as_str()) {
        list = known.dup();
    }
    let ghost list0 = list.deep_view();
    assert(types.map().dom().contains(name@) ==> list0 == before[name@]);
    assert(!types.map().dom().contains(name@) ==> list0.len() == 0);
    let mut i: usize = 0;
    let mut found: bool = false;
    while i < list.len()
        invariant
            i <= list@.len(),
            list0 == list.deep_view(),
            found <==> exists|k: int| 0 <= k < i && #[trigger] list0[k] == ty.deep_view(),
        decreases list@.len() - i,
    {
        assert(list0[i as int] == list@[i as int].deep_view());
        if same_type(&list[i], &ty) {
            found = true;
        }
        i = i + 1;
    }
    if !found {
        list.push(ty);
        assert(list.deep_view() =~= list0.push(ty.deep_view()));
    }
    let ghost list1 = list.deep_view();
    proof {
        assert forall|t: TypeModel| list1.contains(t) <==> list0.contains(t) || t == ty.deep_view()
            by {
            if list0.contains(t) {
                let k = choose|k: int| 0 <= k < list0.len() && list0[k] == t;
                assert(list1[k] == t);
            }
            if !found {
                assert(list1[list0.len() as int] == ty.deep_view());
            }
        }
    }
    let ghost key = name@;
    types.insert(name, list);
    assert forall|n: Text, t: TypeModel| #[trigger] has_type(
        types.deep_view(),
        n,
        t,
    ) <==> has_type(before, n, t)
        || (n == key && t == ty.deep_view() && has_value(t)) by {
        if n != key {
            assert(types.map().dom().contains(n) <==> old(types).map().dom().contains(n));
        }
    }
}

/// The name that the body gives a parameter: its own for the location of the caller, and `_` with
/// the position from 1 for all others.
pub open spec fn parameter_local(params: Seq<(Text, TypeModel)>, i: int) -> Text {
    if params[i].0 == CALLER_LOCATION_PARAM_NAME@ {
        params[i].0
    } else {
        "_"@ + decimal_text((i + 1) as nat)
    }
}

/// Whether an instruction reads a name at a type as an operand, or defines it at that type.
pub open spec fn mentions(instruction: InstructionModel, name: Text, ty: TypeModel) -> bool {
    operands_of(instruction).contains(
        Operand::Variable { name, ty },
    ) || definition_of(instruction) == Some(
        (name, ty),
    )
}

/// Whether one of the instructions mentions a name at a type.
pub open spec fn mentioned(instructions: Seq<InstructionModel>, name: Text, ty: TypeModel) -> bool {
    exists|k: int| 0 <= k < instructions.len() && #[trigger] mentions(instructions[k], name, ty)
}

/// Whether a function uses a name at a type: as a parameter, as the exception of an unwind target,
/// or in an instruction.
pub open spec fn uses_name(function: FunctionModel, name: Text, ty: TypeModel) -> bool {
    ||| exists|i: int|
        0 <= i < function.signature.params.len() && name == #[trigger] parameter_local(
            function.signature.params,
            i,
        ) && ty == function.signature.params[i].1
    ||| (name, ty) == unwind_exception()
    ||| exists|label: Text| #[trigger]
        function.body.basic_blocks.dom().contains(label) && mentioned(
            function.body.basic_blocks[label].instructions,
            name,
            ty,
        )
}

fn collect_instruction_types(types: &mut VariableTypes, instruction: &Instruction)
    ensures
        forall|n: Text, t: TypeModel| #[trigger] has_type(
            final(types).deep_view(),
            n,
            t,
        ) <==> has_type(
            old(types).deep_view(),
            n,
            t,
        ) || (mentions(instruction.deep_view(), n, t) && has_value(t)),
{
    let operands = instruction_operands(instruction);
    let ghost all = operands.deep_view();
    let ghost before = types.deep_view();
    for i in 0..operands.len()
        invariant
            all == operands.deep_view(),
            forall|n: Text, t: TypeModel| #[trigger] has_type(
                types.deep_view(),
                n,
                t,
            ) <==> has_type(before, n, t)
                || (has_value(t) && exists|k: int| 0 <= k < i && #[trigger] all[k] == (
                    Operand::<Text>::Variable { name: n, ty: t }
                )),
    {
        assert(all[i as int] == operands@[i as int].deep_view());
        let ghost t0 = types.deep_view();
        match operands[i] {
            Operand::Variable { name, ty } => {
                insert_type(types, name.clone(), ty.dup());
            },
            _ => {},
        }
        assert forall|n: Text, t: TypeModel| #[trigger] has_type(
            types.deep_view(),
            n,
            t,
        ) <==> has_type(before, n, t)
                || (has_value(t) && exists|k: int| 0 <= k < i + 1 && #[trigger] all[k] == (
                    Operand::<Text>::Variable { name: n, ty: t }
                )) by {
            assert(has_type(types.deep_view(), n, t) <==> has_type(t0, n, t) || (
                has_value(t) && all[i as int] == (Operand::<Text>::Variable { name: n, ty: t })
            ));
        }
    }
    let ghost t1 = types.deep_view();
    let definition = instruction_definition_type(instruction);
    assert(definition.deep_view() == definition_of(instruction.deep_view()));
    if let Some((name, ty)) = definition {
        insert_type(types, name, ty);
    }
    assert forall|n: Text, t: TypeModel| #[trigger] has_type(
        types.deep_view(),
        n,
        t,
    ) <==> has_type(before, n, t) || (mentions(instruction.deep_view(), n, t) && has_value(t)) by {
        assert(all.contains(Operand::<Text>::Variable { name: n, ty: t })
            <==> exists|k: int| 0 <= k < all.len()
            && #[trigger] all[k] == (Operand::<Text>::Variable { name: n, ty: t }));
        assert(has_type(types.deep_view(), n, t) <==> has_type(t1, n, t) || (
            has_value(t) && definition_of(instruction.deep_view()) == Some((n, t))
        ));
    }
}

fn collect_block_types(types: &mut VariableTypes, block: &BasicBlock)
    ensures
        forall|n: Text, t: TypeModel| #[trigger] has_type(
            final(types).deep_view(),
            n,
            t,
        ) <==> has_type(
            old(types).deep_view(),
            n,
            t,
        ) || (mentioned(block.deep_view().instructions, n, t) && has_value(t)),
{
    let ghost before = types.deep_view();
    let ghost all = block.deep_view().instructions;
    for i in 0..block.instructions.len()
        invariant
            all == block.deep_view().instructions,
            forall|n: Text, t: TypeModel| #[trigger] has_type(
                types.deep_view(),
                n,
                t,
            ) <==> has_type(before, n, t)
                || (has_value(t) && exists|k: int| 0 <= k < i && #[trigger] mentions(all[k], n, t)),
    {
        let ghost t0 = types.deep_view();
        assert(all[i as int] == block.instructions@[i as int].deep_view());
        collect_instruction_types(types, &block.instructions[i]);
        assert forall|n: Text, t: TypeModel| #[trigger] has_type(
            types.deep_view(),
            n,
            t,
        ) <==> has_type(before, n, t)
                || (has_value(t) && exists|k: int| 0 <= k < i + 1
                    && #[trigger] mentions(all[k], n, t)) by {
            assert(has_type(
                types.deep_view(),
                n,
                t,
            ) <==> has_type(t0, n, t) || (mentions(all[i as int], n, t) && has_value(t)));
        }
    }
}

/// The types at which a function uses each name.
pub fn collect_variable_types(function: &Function) -> (types: VariableTypes)
    requires
        function.signature.params@.len() < usize::MAX,
    ensures
        forall|name: Text, ty: TypeModel| #[trigger] has_type(
            types.deep_view(),
            name,
            ty,
        ) <==> has_value(ty)
            && uses_name(function.deep_view(), name, ty),
{
    let mut types: VariableTypes = NameMap::new();
    let ghost params = function.signature.deep_view().params;
    for i in 0..function.signature.params.len()
        invariant
            params == function.signature.deep_view().params,
            function.signature.params@.len() < usize::MAX,
            forall|n: Text, t: TypeModel| #[trigger] has_type(
                types.deep_view(),
                n,
                t,
            ) <==> has_value(t) && exists|k: int|
                0 <= k < i && n == #[trigger] parameter_local(params, k) && t == params[k].1,
    {
        let ghost t0 = types.deep_view();
        let name = &function.signature.params[i].0;
        assert(params[i as int] == function.signature.params@[i as int].deep_view());
        let local = if same(name.as_str(), CALLER_LOCATION_PARAM_NAME) {
            name.clone()
        } else {
            cat2("_", decimal((i + 1) as u128).as_str())
        };
        insert_type(&mut types, local, function.signature.params[i].1.dup());
        assert forall|n: Text, t: TypeModel| #[trigger] has_type(
            types.deep_view(),
            n,
            t,
        ) <==> has_value(t) && exists|k: int|
                0 <= k < i + 1 && n == #[trigger] parameter_local(params, k) && t == params[k].1
                    by {
            assert(has_type(types.deep_view(), n, t) <==> has_type(t0, n, t) || (
                n == parameter_local(params, i as int) && t == params[i as int].1 && has_value(t)
            ));
        }
    }
    let ghost t1 = types.deep_view();
    insert_type(
        &mut types,
        UNWIND_EXCEPTION_LOCAL.to_string(),
        Type::Class(THROWABLE_CLASS.to_string()),
    );
    let blocks = &function.body.basic_blocks;
    blocks.check();
    let n: usize = blocks.len();
    let ghost keys = blocks.keys();
    let ghost model = function.deep_view();
    let ghost t2 = types.deep_view();
    for b in 0..n
        invariant
            n == keys.len(),
            keys == blocks.keys(),
            *blocks == function.body.basic_blocks,
            blocks.consistent(),
            model == function.deep_view(),
            forall|name: Text, ty: TypeModel| #[trigger] has_type(
                types.deep_view(),
                name,
                ty,
            ) <==> has_type(t2, name, ty)
                || (has_value(ty) && exists|k: int| 0 <= k < b && mentioned(
                    model.body.basic_blocks[#[trigger] keys[k]].instructions,
                    name,
                    ty,
                )),
    {
        let ghost t3 = types.deep_view();
        assert(model.body.basic_blocks[keys[b as int]] == blocks.values()[b as int].deep_view());
        collect_block_types(&mut types, blocks.value_at(b));
        assert forall|name: Text, ty: TypeModel| #[trigger] has_type(
            types.deep_view(),
            name,
            ty,
        ) <==> has_type(t2, name, ty)
                || (has_value(ty) && exists|k: int| 0 <= k < b + 1 && mentioned(
                    model.body.basic_blocks[#[trigger] keys[k]].instructions,
                    name,
                    ty,
                )) by {
            assert(has_type(types.deep_view(), name, ty) <==> has_type(t3, name, ty) || (
                mentioned(
                    model.body.basic_blocks[keys[b as int]].instructions,
                    name,
                    ty,
                ) && has_value(ty)
            ));
        }
    }
    proof {
        assert forall|name: Text, ty: TypeModel| #[trigger] has_type(
            types.deep_view(),
            name,
            ty,
        ) <==> has_value(ty) && uses_name(model, name, ty) by {
            assert(has_type(t2, name, ty) <==> has_type(t1, name, ty)
                || (name, ty) == unwind_exception());
            if exists|k: int| 0 <= k < n && mentioned(
                model.body.basic_blocks[#[trigger] keys[k]].instructions,
                name,
                ty,
            ) {
                let k = choose|k: int| 0 <= k < n && mentioned(
                    model.body.basic_blocks[#[trigger] keys[k]].instructions,
                    name,
                    ty,
                );
                assert(model.body.basic_blocks.dom().contains(keys[k]));
            }
            if exists|label: Text| #[trigger] model.body.basic_blocks.dom().contains(label)
                && mentioned(model.body.basic_blocks[label].instructions, name, ty) {
                let label = choose|label: Text| #[trigger] model.body.basic_blocks.dom().contains(label) && mentioned(model.body.basic_blocks[label].instructions, name, ty);
                assert(blocks.map().dom().contains(label));
                assert(keys.contains(label));
                let k = choose|k: int| 0 <= k < keys.len() && keys[k] == label;
                assert(mentioned(model.body.basic_blocks[keys[k]].instructions, name, ty));
            }
        }
    }
    types
}

} // verus!
