//! Straight-line code under construction, and the pieces that it is built from.
use crate::descriptor::OBJECT_CLASS;
use crate::name_map::NameMap;
use crate::oomir::{
    BasicBlock, BasicBlockModel, BinaryOp, CodeBlock, CodeBlockModel, CompareOp, Constant,
    ConstantModel,
    DataType,
    DataTypeMethod,
    DataTypeMethodModel,
    DataTypeModel,
    Duplicate,
    Function,
    FunctionModel,
    Instruction,
    InstructionModel, Operand, OperandModel, Signature, SignatureModel, Text, Type, TypeModel,
    STRING_CLASS,
};
use crate::text::{cat3, decimal, decimal_text};
use vstd::prelude::*;
use vstd::string::*;

verus! {

/// The classes and interfaces that a module defines, by name.
pub type Definitions = NameMap<DataType>;

/// The model of [`Definitions`].
pub type DefinitionsModel = Map<Text, DataTypeModel>;

/// The instructions of a block so far, and the number of the next temporary.
#[derive(Debug)]
pub struct Code {
    pub instructions: Vec<Instruction>,
    pub temps: usize,
}

/// The model of [`Code`].
pub struct CodeModel {
    pub instructions: Seq<InstructionModel>,
    pub temps: usize,
}

impl DeepView for Code {
    type V = CodeModel;

    open spec fn deep_view(&self) -> CodeModel {
        CodeModel { instructions: self.instructions.deep_view(), temps: self.temps }
    }
}

/// Code without instructions.
pub open spec fn empty_code(temps: usize) -> CodeModel {
    CodeModel { instructions: Seq::empty(), temps }
}

/// Code with one more instruction.
pub open spec fn emit(code: CodeModel, instruction: InstructionModel) -> CodeModel {
    CodeModel { instructions: code.instructions.push(instruction), temps: code.temps }
}

/// Code with more instructions.
pub open spec fn emit_all(code: CodeModel, list: Seq<InstructionModel>) -> CodeModel {
    CodeModel { instructions: code.instructions + list, temps: code.temps }
}

/// The name of a temporary: a prefix and a number.
pub open spec fn temp_name(prefix: Text, number: usize) -> Text {
    prefix + "_"@ + decimal_text(number as nat)
}

/// The number behind another; the numbers of temporaries wrap at the end of `usize`.
pub open spec fn next_number(number: usize) -> usize {
    if number == usize::MAX {
        0
    } else {
        (number + 1) as usize
    }
}

/// Code in which one more temporary is taken, and the name of the temporary.
pub open spec fn fresh(code: CodeModel, prefix: Text) -> (CodeModel, Text) {
    (
        CodeModel { instructions: code.instructions, temps: next_number(code.temps) },
        temp_name(prefix, code.temps),
    )
}

impl Code {
    /// Code without instructions whose first temporary has the given number.
    pub fn new(temps: usize) -> (r: Self)
        ensures
            r.deep_view() == empty_code(temps),
    {
        let r = Code { instructions: Vec::new(), temps };
        assert(r.deep_view().instructions =~= Seq::<InstructionModel>::empty());
        r
    }

    /// Appends an instruction.
    pub fn push(&mut self, instruction: Instruction)
        ensures
            final(self).deep_view() == emit(old(self).deep_view(), instruction.deep_view()),
    {
        let ghost before = self.instructions.deep_view();
        self.instructions.push(instruction);
        assert(self.instructions.deep_view() =~= before.push(instruction.deep_view()));
    }

    /// Appends instructions.
    pub fn append(&mut self, list: &Vec<Instruction>)
        ensures
            final(self).deep_view() == emit_all(old(self).deep_view(), list.deep_view()),
    {
        let ghost before = self.deep_view();
        for i in 0..list.len()
            invariant
                self.deep_view() == emit_all(before, list.deep_view().take(i as int)),
        {
            assert(list.deep_view().take(i + 1) =~= list.deep_view().take(i as int).push(
                list@[i as int].deep_view(),
            ));
            self.push(list[i].dup());
            assert(self.deep_view().instructions =~= before.instructions
                + list.deep_view().take(i + 1));
        }
        assert(list.deep_view().take(list@.len() as int) =~= list.deep_view());
        assert(before.instructions + list.deep_view().take(0) =~= before.instructions);
    }

    /// Takes the next temporary.
    pub fn fresh(&mut self, prefix: &str) -> (r: String)
        ensures
            (final(self).deep_view(), r@) == fresh(old(self).deep_view(), prefix@),
    {
        let r = numbered(prefix, self.temps);
        self.temps = if self.temps == usize::MAX { 0 } else { self.temps + 1 };
        r
    }

    /// The instructions.
    pub fn into_instructions(self) -> (r: Vec<Instruction>)
        ensures
            r.deep_view() == self.deep_view().instructions,
    {
        self.instructions
    }
}

/// A prefix, an underscore and a number.
pub fn numbered(prefix: &str, number: usize) -> (r: String)
    ensures
        r@ == temp_name(prefix@, number),
{
    cat3(prefix, "_", decimal(number as u128).as_str())
}

/// The model of a result whose error is a message.
pub open spec fn outcome_model<T: DeepView>(r: Result<T, String>) -> Result<T::V, Text> {
    match r {
        Ok(value) => Ok(value.deep_view()),
        Err(message) => Err(message@),
    }
}

/// The model of a result without a value.
pub open spec fn unit_outcome(r: Result<(), String>) -> Result<(), Text> {
    match r {
        Ok(_) => Ok(()),
        Err(message) => Err(message@),
    }
}

/// A class type.
pub open spec fn class(name: Text) -> TypeModel {
    Type::Class(name)
}

/// A class type.
pub fn class_type(name: &str) -> (r: Type)
    ensures
        r.deep_view() == class(name@),
{
    Type::Class(name.to_string())
}

/// The type of any object.
pub open spec fn object_class() -> TypeModel {
    class(OBJECT_CLASS@)
}

/// The type of any object.
pub fn object_type() -> (r: Type)
    ensures
        r.deep_view() == object_class(),
{
    class_type(OBJECT_CLASS)
}

/// The type of Java strings.
pub open spec fn string_class() -> TypeModel {
    class(STRING_CLASS@)
}

/// The type of Java strings.
pub fn java_string() -> (r: Type)
    ensures
        r.deep_view() == string_class(),
{
    class_type(STRING_CLASS)
}

/// A pointer type.
pub open spec fn pointer_to(inner: TypeModel) -> TypeModel {
    Type::Pointer(Box::new(inner))
}

/// A pointer type.
pub fn pointer_type(inner: &Type) -> (r: Type)
    ensures
        r.deep_view() == pointer_to(inner.deep_view()),
{
    Type::Pointer(Box::new(inner.dup()))
}

/// A slice type.
pub open spec fn slice_of(inner: TypeModel) -> TypeModel {
    Type::Slice(Box::new(inner))
}

/// A slice type.
pub fn slice_type(inner: &Type) -> (r: Type)
    ensures
        r.deep_view() == slice_of(inner.deep_view()),
{
    Type::Slice(Box::new(inner.dup()))
}

/// An array type.
pub open spec fn array_of(inner: TypeModel) -> TypeModel {
    Type::Array(Box::new(inner))
}

/// An array type.
pub fn array_type(inner: &Type) -> (r: Type)
    ensures
        r.deep_view() == array_of(inner.deep_view()),
{
    Type::Array(Box::new(inner.dup()))
}

/// The type of byte arrays.
pub open spec fn byte_array() -> TypeModel {
    array_of(Type::I8)
}

/// The type of byte arrays.
pub fn byte_array_type() -> (r: Type)
    ensures
        r.deep_view() == byte_array(),
{
    array_type(&Type::I8)
}

/// The type of object arrays.
pub open spec fn object_array() -> TypeModel {
    array_of(object_class())
}

/// The type of object arrays.
pub fn object_array_type() -> (r: Type)
    ensures
        r.deep_view() == object_array(),
{
    array_type(&object_type())
}

/// A variable.
pub open spec fn variable(name: Text, ty: TypeModel) -> OperandModel {
    Operand::Variable { name, ty }
}

/// A variable.
pub fn operand_var(name: &str, ty: &Type) -> (r: Operand)
    ensures
        r.deep_view() == variable(name@, ty.deep_view()),
{
    Operand::Variable { name: name.to_string(), ty: ty.dup() }
}

/// A constant.
pub open spec fn constant_value(constant: ConstantModel) -> OperandModel {
    Operand::Constant(constant)
}

/// A constant.
pub fn constant_operand(constant: &Constant) -> (r: Operand)
    ensures
        r.deep_view() == constant_value(constant.deep_view()),
{
    Operand::Constant(constant.dup())
}

/// A constant of type `i8`.
pub open spec fn i8_value(value: i8) -> OperandModel {
    Operand::Constant(Constant::I8(value))
}

/// A constant of type `i8`.
pub fn i8_operand(value: i8) -> (r: Operand)
    ensures
        r.deep_view() == i8_value(value),
{
    Operand::Constant(Constant::I8(value))
}

/// A constant of type `i32`.
pub open spec fn i32_value(value: i32) -> OperandModel {
    Operand::Constant(Constant::I32(value))
}

/// A constant of type `i32`.
pub fn i32_operand(value: i32) -> (r: Operand)
    ensures
        r.deep_view() == i32_value(value),
{
    Operand::Constant(Constant::I32(value))
}

/// A constant of type `i64`.
pub open spec fn i64_value(value: i64) -> OperandModel {
    Operand::Constant(Constant::I64(value))
}

/// A constant of type `i64`.
pub fn i64_operand(value: i64) -> (r: Operand)
    ensures
        r.deep_view() == i64_value(value),
{
    Operand::Constant(Constant::I64(value))
}

/// A constant of type `u64`.
pub open spec fn u64_value(value: u64) -> OperandModel {
    Operand::Constant(Constant::U64(value))
}

/// A constant of type `u64`.
pub fn u64_operand(value: u64) -> (r: Operand)
    ensures
        r.deep_view() == u64_value(value),
{
    Operand::Constant(Constant::U64(value))
}

/// A constant of type `bool`.
pub open spec fn bool_value(value: bool) -> OperandModel {
    Operand::Constant(Constant::Boolean(value))
}

/// A constant of type `bool`.
pub fn bool_operand(value: bool) -> (r: Operand)
    ensures
        r.deep_view() == bool_value(value),
{
    Operand::Constant(Constant::Boolean(value))
}

/// A string constant.
pub open spec fn text_value(text: Text) -> OperandModel {
    Operand::Constant(Constant::String(text))
}

/// A string constant.
pub fn text_operand(text: &str) -> (r: Operand)
    ensures
        r.deep_view() == text_value(text@),
{
    Operand::Constant(Constant::String(text.to_string()))
}

/// The absent string.
pub open spec fn null_string() -> OperandModel {
    Operand::Constant(Constant::Null(string_class()))
}

/// The absent string.
pub fn null_string_operand() -> (r: Operand)
    ensures
        r.deep_view() == null_string(),
{
    Operand::Constant(Constant::Null(java_string()))
}

/// The value without JVM representation.
pub open spec fn unit_value() -> OperandModel {
    Operand::Constant(Constant::Unit)
}

/// The value without JVM representation.
pub fn unit_operand() -> (r: Operand)
    ensures
        r.deep_view() == unit_value(),
{
    Operand::Constant(Constant::Unit)
}

/// No parameters.
pub open spec fn params0() -> Seq<(Text, TypeModel)> {
    Seq::empty()
}

/// No parameters.
pub fn make_params0() -> (r: Vec<(String, Type)>)
    ensures
        r.deep_view() == params0(),
{
    let r: Vec<(String, Type)> = Vec::new();
    assert(r.deep_view() =~= params0());
    r
}

/// One parameter.
#[verifier::opaque]
pub open spec fn params1(n1: Text, t1: TypeModel) -> Seq<(Text, TypeModel)> {
    seq![(n1, t1)]
}

/// One parameter.
pub fn make_params1(n1: &str, t1: &Type) -> (r: Vec<(String, Type)>)
    ensures
        r.deep_view() == params1(n1@, t1.deep_view()),
{
    proof {
        reveal(params1);
    }
    let r: Vec<(String, Type)> = vec![(n1.to_string(), t1.dup())];
    assert(r.deep_view() =~= params1(n1@, t1.deep_view()));
    r
}

/// Two parameters.
#[verifier::opaque]
pub open spec fn params2(
    n1: Text,
    t1: TypeModel,
    n2: Text,
    t2: TypeModel,
) -> Seq<(Text, TypeModel)> {
    seq![(n1, t1), (n2, t2)]
}

/// Two parameters.
pub fn make_params2(n1: &str, t1: &Type, n2: &str, t2: &Type) -> (r: Vec<(String, Type)>)
    ensures
        r.deep_view() == params2(n1@, t1.deep_view(), n2@, t2.deep_view()),
{
    proof {
        reveal(params2);
    }
    let r: Vec<(String, Type)> = vec![(n1.to_string(), t1.dup()), (n2.to_string(), t2.dup())];
    assert(r.deep_view() =~= params2(n1@, t1.deep_view(), n2@, t2.deep_view()));
    r
}

/// Three parameters.
#[verifier::opaque]
pub open spec fn params3(
    n1: Text,
    t1: TypeModel,
    n2: Text,
    t2: TypeModel,
    n3: Text,
    t3: TypeModel,
) -> Seq<(Text, TypeModel)> {
    seq![(n1, t1), (n2, t2), (n3, t3)]
}

/// Three parameters.
pub fn make_params3(
    n1: &str,
    t1: &Type,
    n2: &str,
    t2: &Type,
    n3: &str,
    t3: &Type,
) -> (r: Vec<(String, Type)>)
    ensures
        r.deep_view() == params3(n1@, t1.deep_view(), n2@, t2.deep_view(), n3@, t3.deep_view()),
{
    proof {
        reveal(params3);
    }
    let r: Vec<(String, Type)> = vec![(
        n1.to_string(),
        t1.dup(),
    ), (n2.to_string(), t2.dup()), (n3.to_string(), t3.dup())];
    assert(
        r.deep_view() =~= params3(n1@, t1.deep_view(), n2@, t2.deep_view(), n3@, t3.deep_view())
    );
    r
}

/// Four parameters.
#[verifier::opaque]
pub open spec fn params4(
    n1: Text,
    t1: TypeModel,
    n2: Text,
    t2: TypeModel,
    n3: Text,
    t3: TypeModel,
    n4: Text,
    t4: TypeModel,
) -> Seq<(Text, TypeModel)> {
    seq![(n1, t1), (n2, t2), (n3, t3), (n4, t4)]
}

/// Four parameters.
pub fn make_params4(
    n1: &str,
    t1: &Type,
    n2: &str,
    t2: &Type,
    n3: &str,
    t3: &Type,
    n4: &str,
    t4: &Type,
) -> (r: Vec<(String, Type)>)
    ensures
        r.deep_view() == params4(
            n1@,
            t1.deep_view(),
            n2@,
            t2.deep_view(),
            n3@,
            t3.deep_view(),
            n4@,
            t4.deep_view(),
        ),
{
    proof {
        reveal(params4);
    }
    let r: Vec<(String, Type)> = vec![(
        n1.to_string(),
        t1.dup(),
    ), (n2.to_string(), t2.dup()), (n3.to_string(), t3.dup()), (n4.to_string(), t4.dup())];
    assert(
        r.deep_view() =~= params4(
            n1@,
            t1.deep_view(),
            n2@,
            t2.deep_view(),
            n3@,
            t3.deep_view(),
            n4@,
            t4.deep_view(),
        )
    );
    r
}

/// Five parameters.
#[verifier::opaque]
pub open spec fn params5(
    n1: Text,
    t1: TypeModel,
    n2: Text,
    t2: TypeModel,
    n3: Text,
    t3: TypeModel,
    n4: Text,
    t4: TypeModel,
    n5: Text,
    t5: TypeModel,
) -> Seq<(Text, TypeModel)> {
    seq![(n1, t1), (n2, t2), (n3, t3), (n4, t4), (n5, t5)]
}

/// Five parameters.
pub fn make_params5(
    n1: &str,
    t1: &Type,
    n2: &str,
    t2: &Type,
    n3: &str,
    t3: &Type,
    n4: &str,
    t4: &Type,
    n5: &str,
    t5: &Type,
) -> (r: Vec<(String, Type)>)
    ensures
        r.deep_view() == params5(
            n1@,
            t1.deep_view(),
            n2@,
            t2.deep_view(),
            n3@,
            t3.deep_view(),
            n4@,
            t4.deep_view(),
            n5@,
            t5.deep_view(),
        ),
{
    proof {
        reveal(params5);
    }
    let r: Vec<(String, Type)> = vec![(n1.to_string(), t1.dup()), (
        n2.to_string(),
        t2.dup(),
    ), (n3.to_string(), t3.dup()), (n4.to_string(), t4.dup()), (n5.to_string(), t5.dup())];
    assert(
        r.deep_view() =~= params5(
            n1@,
            t1.deep_view(),
            n2@,
            t2.deep_view(),
            n3@,
            t3.deep_view(),
            n4@,
            t4.deep_view(),
            n5@,
            t5.deep_view(),
        )
    );
    r
}

/// Seven parameters.
#[verifier::opaque]
pub open spec fn params7(
    n1: Text,
    t1: TypeModel,
    n2: Text,
    t2: TypeModel,
    n3: Text,
    t3: TypeModel,
    n4: Text,
    t4: TypeModel,
    n5: Text,
    t5: TypeModel,
    n6: Text,
    t6: TypeModel,
    n7: Text,
    t7: TypeModel,
) -> Seq<(Text, TypeModel)> {
    seq![(n1, t1), (n2, t2), (n3, t3), (n4, t4), (n5, t5), (n6, t6), (n7, t7)]
}

/// Seven parameters.
pub fn make_params7(
    n1: &str,
    t1: &Type,
    n2: &str,
    t2: &Type,
    n3: &str,
    t3: &Type,
    n4: &str,
    t4: &Type,
    n5: &str,
    t5: &Type,
    n6: &str,
    t6: &Type,
    n7: &str,
    t7: &Type,
) -> (r: Vec<(String, Type)>)
    ensures
        r.deep_view() == params7(
            n1@,
            t1.deep_view(),
            n2@,
            t2.deep_view(),
            n3@,
            t3.deep_view(),
            n4@,
            t4.deep_view(),
            n5@,
            t5.deep_view(),
            n6@,
            t6.deep_view(),
            n7@,
            t7.deep_view(),
        ),
{
    proof {
        reveal(params7);
    }
    let r: Vec<(String, Type)> = vec![(n1.to_string(), t1.dup()), (n2.to_string(), t2.dup()),
        (n3.to_string(), t3.dup()), (n4.to_string(), t4.dup()), (n5.to_string(), t5.dup()),
        (n6.to_string(), t6.dup()), (n7.to_string(), t7.dup())];
    assert(
        r.deep_view() =~= params7(
            n1@,
            t1.deep_view(),
            n2@,
            t2.deep_view(),
            n3@,
            t3.deep_view(),
            n4@,
            t4.deep_view(),
            n5@,
            t5.deep_view(),
            n6@,
            t6.deep_view(),
            n7@,
            t7.deep_view(),
        )
    );
    r
}

/// No arguments.
pub open spec fn args0() -> Seq<OperandModel> {
    Seq::empty()
}

/// No arguments.
pub fn make_args0() -> (r: Vec<Operand>)
    ensures
        r.deep_view() == args0(),
{
    let r: Vec<Operand> = Vec::new();
    assert(r.deep_view() =~= args0());
    r
}

/// One argument.
#[verifier::opaque]
pub open spec fn args1(a1: OperandModel) -> Seq<OperandModel> {
    seq![a1]
}

/// One argument.
pub fn make_args1(a1: &Operand) -> (r: Vec<Operand>)
    ensures
        r.deep_view() == args1(a1.deep_view()),
{
    proof {
        reveal(args1);
    }
    let r: Vec<Operand> = vec![a1.dup()];
    assert(r.deep_view() =~= args1(a1.deep_view()));
    r
}

/// Two arguments.
#[verifier::opaque]
pub open spec fn args2(a1: OperandModel, a2: OperandModel) -> Seq<OperandModel> {
    seq![a1, a2]
}

/// Two arguments.
pub fn make_args2(a1: &Operand, a2: &Operand) -> (r: Vec<Operand>)
    ensures
        r.deep_view() == args2(a1.deep_view(), a2.deep_view()),
{
    proof {
        reveal(args2);
    }
    let r: Vec<Operand> = vec![a1.dup(), a2.dup()];
    assert(r.deep_view() =~= args2(a1.deep_view(), a2.deep_view()));
    r
}

/// Three arguments.
#[verifier::opaque]
pub open spec fn args3(a1: OperandModel, a2: OperandModel, a3: OperandModel) -> Seq<OperandModel> {
    seq![a1, a2, a3]
}

/// Three arguments.
pub fn make_args3(a1: &Operand, a2: &Operand, a3: &Operand) -> (r: Vec<Operand>)
    ensures
        r.deep_view() == args3(a1.deep_view(), a2.deep_view(), a3.deep_view()),
{
    proof {
        reveal(args3);
    }
    let r: Vec<Operand> = vec![a1.dup(), a2.dup(), a3.dup()];
    assert(r.deep_view() =~= args3(a1.deep_view(), a2.deep_view(), a3.deep_view()));
    r
}

/// Four arguments.
#[verifier::opaque]
pub open spec fn args4(
    a1: OperandModel,
    a2: OperandModel,
    a3: OperandModel,
    a4: OperandModel,
) -> Seq<OperandModel> {
    seq![a1, a2, a3, a4]
}

/// Four arguments.
pub fn make_args4(a1: &Operand, a2: &Operand, a3: &Operand, a4: &Operand) -> (r: Vec<Operand>)
    ensures
        r.deep_view() == args4(a1.deep_view(), a2.deep_view(), a3.deep_view(), a4.deep_view()),
{
    proof {
        reveal(args4);
    }
    let r: Vec<Operand> = vec![a1.dup(), a2.dup(), a3.dup(), a4.dup()];
    assert(r.deep_view() =~= args4(a1.deep_view(), a2.deep_view(), a3.deep_view(), a4.deep_view()));
    r
}

/// Five arguments.
#[verifier::opaque]
pub open spec fn args5(
    a1: OperandModel,
    a2: OperandModel,
    a3: OperandModel,
    a4: OperandModel,
    a5: OperandModel,
) -> Seq<OperandModel> {
    seq![a1, a2, a3, a4, a5]
}

/// Five arguments.
pub fn make_args5(
    a1: &Operand,
    a2: &Operand,
    a3: &Operand,
    a4: &Operand,
    a5: &Operand,
) -> (r: Vec<Operand>)
    ensures
        r.deep_view() == args5(
            a1.deep_view(),
            a2.deep_view(),
            a3.deep_view(),
            a4.deep_view(),
            a5.deep_view(),
        ),
{
    proof {
        reveal(args5);
    }
    let r: Vec<Operand> = vec![a1.dup(), a2.dup(), a3.dup(), a4.dup(), a5.dup()];
    assert(
        r.deep_view() =~= args5(
            a1.deep_view(),
            a2.deep_view(),
            a3.deep_view(),
            a4.deep_view(),
            a5.deep_view(),
        )
    );
    r
}

/// Seven arguments.
#[verifier::opaque]
pub open spec fn args7(
    a1: OperandModel,
    a2: OperandModel,
    a3: OperandModel,
    a4: OperandModel,
    a5: OperandModel,
    a6: OperandModel,
    a7: OperandModel,
) -> Seq<OperandModel> {
    seq![a1, a2, a3, a4, a5, a6, a7]
}

/// Seven arguments.
pub fn make_args7(
    a1: &Operand,
    a2: &Operand,
    a3: &Operand,
    a4: &Operand,
    a5: &Operand,
    a6: &Operand,
    a7: &Operand,
) -> (r: Vec<Operand>)
    ensures
        r.deep_view() == args7(
            a1.deep_view(),
            a2.deep_view(),
            a3.deep_view(),
            a4.deep_view(),
            a5.deep_view(),
            a6.deep_view(),
            a7.deep_view(),
        ),
{
    proof {
        reveal(args7);
    }
    let r: Vec<Operand> = vec![a1.dup(), a2.dup(), a3.dup(), a4.dup(), a5.dup(), a6.dup(),
        a7.dup()];
    assert(
        r.deep_view() =~= args7(
            a1.deep_view(),
            a2.deep_view(),
            a3.deep_view(),
            a4.deep_view(),
            a5.deep_view(),
            a6.deep_view(),
            a7.deep_view(),
        )
    );
    r
}

/// No constructor arguments.
pub open spec fn typed0() -> Seq<(OperandModel, TypeModel)> {
    Seq::empty()
}

/// No constructor arguments.
pub fn make_typed0() -> (r: Vec<(Operand, Type)>)
    ensures
        r.deep_view() == typed0(),
{
    let r: Vec<(Operand, Type)> = Vec::new();
    assert(r.deep_view() =~= typed0());
    r
}

/// One constructor argument.
#[verifier::opaque]
pub open spec fn typed1(a1: OperandModel, t1: TypeModel) -> Seq<(OperandModel, TypeModel)> {
    seq![(a1, t1)]
}

/// One constructor argument.
pub fn make_typed1(a1: &Operand, t1: &Type) -> (r: Vec<(Operand, Type)>)
    ensures
        r.deep_view() == typed1(a1.deep_view(), t1.deep_view()),
{
    proof {
        reveal(typed1);
    }
    let r: Vec<(Operand, Type)> = vec![(a1.dup(), t1.dup())];
    assert(r.deep_view() =~= typed1(a1.deep_view(), t1.deep_view()));
    r
}

/// Two constructor arguments.
#[verifier::opaque]
pub open spec fn typed2(
    a1: OperandModel,
    t1: TypeModel,
    a2: OperandModel,
    t2: TypeModel,
) -> Seq<(OperandModel, TypeModel)> {
    seq![(a1, t1), (a2, t2)]
}

/// Two constructor arguments.
pub fn make_typed2(a1: &Operand, t1: &Type, a2: &Operand, t2: &Type) -> (r: Vec<(Operand, Type)>)
    ensures
        r.deep_view() == typed2(a1.deep_view(), t1.deep_view(), a2.deep_view(), t2.deep_view()),
{
    proof {
        reveal(typed2);
    }
    let r: Vec<(Operand, Type)> = vec![(a1.dup(), t1.dup()), (a2.dup(), t2.dup())];
    assert(
        r.deep_view() =~= typed2(a1.deep_view(), t1.deep_view(), a2.deep_view(), t2.deep_view())
    );
    r
}

/// Three constructor arguments.
#[verifier::opaque]
pub open spec fn typed3(
    a1: OperandModel,
    t1: TypeModel,
    a2: OperandModel,
    t2: TypeModel,
    a3: OperandModel,
    t3: TypeModel,
) -> Seq<(OperandModel, TypeModel)> {
    seq![(a1, t1), (a2, t2), (a3, t3)]
}

/// Three constructor arguments.
pub fn make_typed3(
    a1: &Operand,
    t1: &Type,
    a2: &Operand,
    t2: &Type,
    a3: &Operand,
    t3: &Type,
) -> (r: Vec<(Operand, Type)>)
    ensures
        r.deep_view() == typed3(
            a1.deep_view(),
            t1.deep_view(),
            a2.deep_view(),
            t2.deep_view(),
            a3.deep_view(),
            t3.deep_view(),
        ),
{
    proof {
        reveal(typed3);
    }
    let r: Vec<(Operand, Type)> = vec![(a1.dup(), t1.dup()), (a2.dup(), t2.dup()), (a3.dup(),
        t3.dup())];
    assert(
        r.deep_view() =~= typed3(
            a1.deep_view(),
            t1.deep_view(),
            a2.deep_view(),
            t2.deep_view(),
            a3.deep_view(),
            t3.deep_view(),
        )
    );
    r
}

/// The signature of a static method.
pub open spec fn static_method(params: Seq<(Text, TypeModel)>, ret: TypeModel) -> SignatureModel {
    SignatureModel { params, ret, is_static: true }
}

/// The signature of a static method.
pub fn static_signature(params: &Vec<(String, Type)>, ret: &Type) -> (r: Signature)
    ensures
        r.deep_view() == static_method(params.deep_view(), ret.deep_view()),
{
    Signature { params: params.dup(), ret: ret.dup(), is_static: true }
}

/// The signature of an instance method.
pub open spec fn instance_method(params: Seq<(Text, TypeModel)>, ret: TypeModel) -> SignatureModel {
    SignatureModel { params, ret, is_static: false }
}

/// The signature of an instance method.
pub fn instance_signature(params: &Vec<(String, Type)>, ret: &Type) -> (r: Signature)
    ensures
        r.deep_view() == instance_method(params.deep_view(), ret.deep_view()),
{
    Signature { params: params.dup(), ret: ret.dup(), is_static: false }
}

/// Calls a static method for its result.
pub open spec fn calls_static(
    dest: Text,
    class_name: Text,
    method_name: Text,
    method_ty: SignatureModel,
    args: Seq<OperandModel>,
) -> InstructionModel {
    InstructionModel::InvokeStatic { dest: Some(dest), class_name, method_name, method_ty, args }
}

/// Calls a static method for its result.
pub fn static_call(
    dest: &str,
    class_name: &str,
    method_name: &str,
    method_ty: &Signature,
    args: &Vec<Operand>,
) -> (r: Instruction)
    ensures
        r.deep_view() == calls_static(
            dest@,
            class_name@,
            method_name@,
            method_ty.deep_view(),
            args.deep_view(),
        ),
{
    Instruction::InvokeStatic {
        dest: Some(dest.to_string()),
        class_name: class_name.to_string(),
        method_name: method_name.to_string(),
        method_ty: method_ty.dup(),
        args: args.dup(),
    }
}

/// Calls a static method for its effect.
pub open spec fn runs_static(
    class_name: Text,
    method_name: Text,
    method_ty: SignatureModel,
    args: Seq<OperandModel>,
) -> InstructionModel {
    InstructionModel::InvokeStatic { dest: None, class_name, method_name, method_ty, args }
}

/// Calls a static method for its effect.
pub fn static_run(
    class_name: &str,
    method_name: &str,
    method_ty: &Signature,
    args: &Vec<Operand>,
) -> (r: Instruction)
    ensures
        r.deep_view() == runs_static(
            class_name@,
            method_name@,
            method_ty.deep_view(),
            args.deep_view(),
        ),
{
    Instruction::InvokeStatic {
        dest: None,
        class_name: class_name.to_string(),
        method_name: method_name.to_string(),
        method_ty: method_ty.dup(),
        args: args.dup(),
    }
}

/// Calls an instance method for its result.
pub open spec fn calls_virtual(
    dest: Text,
    class_name: Text,
    method_name: Text,
    method_ty: SignatureModel,
    args: Seq<OperandModel>,
    operand: OperandModel,
) -> InstructionModel {
    InstructionModel::InvokeVirtual { dest: Some(dest), class_name, method_name, method_ty, args,
        operand }
}

/// Calls an instance method for its result.
pub fn virtual_call(
    dest: &str,
    class_name: &str,
    method_name: &str,
    method_ty: &Signature,
    args: &Vec<Operand>,
    operand: &Operand,
) -> (r: Instruction)
    ensures
        r.deep_view() == calls_virtual(
            dest@,
            class_name@,
            method_name@,
            method_ty.deep_view(),
            args.deep_view(),
            operand.deep_view(),
        ),
{
    Instruction::InvokeVirtual {
        dest: Some(dest.to_string()),
        class_name: class_name.to_string(),
        method_name: method_name.to_string(),
        method_ty: method_ty.dup(),
        args: args.dup(),
        operand: operand.dup(),
    }
}

/// Calls an instance method for its effect.
pub open spec fn runs_virtual(
    class_name: Text,
    method_name: Text,
    method_ty: SignatureModel,
    args: Seq<OperandModel>,
    operand: OperandModel,
) -> InstructionModel {
    InstructionModel::InvokeVirtual { dest: None, class_name, method_name, method_ty, args,
        operand }
}

/// Calls an instance method for its effect.
pub fn virtual_run(
    class_name: &str,
    method_name: &str,
    method_ty: &Signature,
    args: &Vec<Operand>,
    operand: &Operand,
) -> (r: Instruction)
    ensures
        r.deep_view() == runs_virtual(
            class_name@,
            method_name@,
            method_ty.deep_view(),
            args.deep_view(),
            operand.deep_view(),
        ),
{
    Instruction::InvokeVirtual {
        dest: None,
        class_name: class_name.to_string(),
        method_name: method_name.to_string(),
        method_ty: method_ty.dup(),
        args: args.dup(),
        operand: operand.dup(),
    }
}

/// Reads a field.
pub open spec fn reads_field(
    dest: Text,
    object: OperandModel,
    field_name: Text,
    field_ty: TypeModel,
    owner_class: Text,
) -> InstructionModel {
    InstructionModel::GetField { dest, object, field_name, field_ty, owner_class }
}

/// Reads a field.
pub fn field_read(
    dest: &str,
    object: &Operand,
    field_name: &str,
    field_ty: &Type,
    owner_class: &str,
) -> (r: Instruction)
    ensures
        r.deep_view() == reads_field(
            dest@,
            object.deep_view(),
            field_name@,
            field_ty.deep_view(),
            owner_class@,
        ),
{
    Instruction::GetField {
        dest: dest.to_string(),
        object: object.dup(),
        field_name: field_name.to_string(),
        field_ty: field_ty.dup(),
        owner_class: owner_class.to_string(),
    }
}

/// Makes an array.
pub open spec fn makes_array(
    dest: Text,
    element_type: TypeModel,
    size: OperandModel,
) -> InstructionModel {
    InstructionModel::NewArray { dest, element_type, size }
}

/// Makes an array.
pub fn array_new(dest: &str, element_type: &Type, size: &Operand) -> (r: Instruction)
    ensures
        r.deep_view() == makes_array(dest@, element_type.deep_view(), size.deep_view()),
{
    Instruction::NewArray { dest: dest.to_string(), element_type: element_type.dup(),
        size: size.dup() }
}

/// Stores into an array.
pub open spec fn stores_element(
    array: Text,
    index: OperandModel,
    value: OperandModel,
) -> InstructionModel {
    InstructionModel::ArrayStore { array, index, value, copy_value: false }
}

/// Stores into an array.
pub fn array_store(array: &str, index: &Operand, value: &Operand) -> (r: Instruction)
    ensures
        r.deep_view() == stores_element(array@, index.deep_view(), value.deep_view()),
{
    Instruction::ArrayStore {
        array: array.to_string(),
        index: index.dup(),
        value: value.dup(),
        copy_value: false,
    }
}

/// Reads from an array.
pub open spec fn reads_element(
    dest: Text,
    array: OperandModel,
    index: OperandModel,
) -> InstructionModel {
    InstructionModel::ArrayGet { dest, array, index }
}

/// Reads from an array.
pub fn array_get(dest: &str, array: &Operand, index: &Operand) -> (r: Instruction)
    ensures
        r.deep_view() == reads_element(dest@, array.deep_view(), index.deep_view()),
{
    Instruction::ArrayGet { dest: dest.to_string(), array: array.dup(), index: index.dup() }
}

/// Makes an object.
pub open spec fn makes_object(
    dest: Text,
    class_name: Text,
    args: Seq<(OperandModel, TypeModel)>,
) -> InstructionModel {
    InstructionModel::ConstructObject { dest, class_name, args }
}

/// Makes an object.
pub fn construct(dest: &str, class_name: &str, args: &Vec<(Operand, Type)>) -> (r: Instruction)
    ensures
        r.deep_view() == makes_object(dest@, class_name@, args.deep_view()),
{
    Instruction::ConstructObject {
        dest: dest.to_string(),
        class_name: class_name.to_string(),
        args: args.dup(),
    }
}

/// Converts a value.
pub open spec fn converts(op: OperandModel, ty: TypeModel, dest: Text) -> InstructionModel {
    InstructionModel::Cast { op, ty, dest }
}

/// Converts a value.
pub fn cast(op: &Operand, ty: &Type, dest: &str) -> (r: Instruction)
    ensures
        r.deep_view() == converts(op.deep_view(), ty.deep_view(), dest@),
{
    Instruction::Cast { op: op.dup(), ty: ty.dup(), dest: dest.to_string() }
}

/// An arithmetic or bitwise operation.
pub open spec fn computes(
    op: BinaryOp,
    dest: Text,
    op1: OperandModel,
    op2: OperandModel,
) -> InstructionModel {
    InstructionModel::Binary { op, dest, op1, op2 }
}

/// An arithmetic or bitwise operation.
pub fn binary(op: BinaryOp, dest: &str, op1: &Operand, op2: &Operand) -> (r: Instruction)
    ensures
        r.deep_view() == computes(op, dest@, op1.deep_view(), op2.deep_view()),
{
    Instruction::Binary { op, dest: dest.to_string(), op1: op1.dup(), op2: op2.dup() }
}

/// A test for equality.
pub open spec fn tests_equality(
    dest: Text,
    op1: OperandModel,
    op2: OperandModel,
) -> InstructionModel {
    InstructionModel::Compare { op: CompareOp::Eq, dest, op1, op2 }
}

/// A test for equality.
pub fn equality(dest: &str, op1: &Operand, op2: &Operand) -> (r: Instruction)
    ensures
        r.deep_view() == tests_equality(dest@, op1.deep_view(), op2.deep_view()),
{
    Instruction::Compare { op: CompareOp::Eq, dest: dest.to_string(), op1: op1.dup(),
        op2: op2.dup() }
}

/// Copies a value.
pub open spec fn copies(dest: Text, src: OperandModel) -> InstructionModel {
    InstructionModel::Move { dest, src }
}

/// Copies a value.
pub fn copy_value(dest: &str, src: &Operand) -> (r: Instruction)
    ensures
        r.deep_view() == copies(dest@, src.deep_view()),
{
    Instruction::Move { dest: dest.to_string(), src: src.dup() }
}

/// Goes on at another block.
pub open spec fn jumps(target: Text) -> InstructionModel {
    InstructionModel::Jump { target }
}

/// Goes on at another block.
pub fn jump(target: &str) -> (r: Instruction)
    ensures
        r.deep_view() == jumps(target@),
{
    Instruction::Jump { target: target.to_string() }
}

/// Goes on at one of two blocks.
pub open spec fn branches(
    condition: OperandModel,
    true_block: Text,
    false_block: Text,
) -> InstructionModel {
    InstructionModel::Branch { condition, true_block, false_block }
}

/// Goes on at one of two blocks.
pub fn branch(condition: &Operand, true_block: &str, false_block: &str) -> (r: Instruction)
    ensures
        r.deep_view() == branches(condition.deep_view(), true_block@, false_block@),
{
    Instruction::Branch {
        condition: condition.dup(),
        true_block: true_block.to_string(),
        false_block: false_block.to_string(),
    }
}

/// Goes on at the block of a value.
pub open spec fn switches(
    discr: OperandModel,
    targets: Seq<(ConstantModel, Text)>,
    otherwise: Text,
) -> InstructionModel {
    InstructionModel::Switch { discr, targets, otherwise }
}

/// Goes on at the block of a value.
pub fn switch_on(
    discr: &Operand,
    targets: &Vec<(Constant, String)>,
    otherwise: &str,
) -> (r: Instruction)
    ensures
        r.deep_view() == switches(discr.deep_view(), targets.deep_view(), otherwise@),
{
    Instruction::Switch {
        discr: discr.dup(),
        targets: targets.dup(),
        otherwise: otherwise.to_string(),
    }
}

/// Begins code that a block cleans up after.
pub open spec fn starts_unwind(target: Text) -> InstructionModel {
    InstructionModel::UnwindStart { target }
}

/// Begins code that a block cleans up after.
pub fn unwind_start(target: &str) -> (r: Instruction)
    ensures
        r.deep_view() == starts_unwind(target@),
{
    Instruction::UnwindStart { target: target.to_string() }
}

/// Ends code that a block cleans up after.
pub open spec fn ends_unwind() -> InstructionModel {
    InstructionModel::UnwindEnd
}

/// Ends code that a block cleans up after.
pub fn unwind_end() -> (r: Instruction)
    ensures
        r.deep_view() == ends_unwind(),
{
    Instruction::UnwindEnd
}

/// Throws the exception again that is being cleaned up after.
pub open spec fn rethrows() -> InstructionModel {
    InstructionModel::Rethrow
}

/// Throws the exception again that is being cleaned up after.
pub fn rethrow() -> (r: Instruction)
    ensures
        r.deep_view() == rethrows(),
{
    Instruction::Rethrow
}

/// Returns a value.
pub open spec fn returns_value(operand: OperandModel) -> InstructionModel {
    InstructionModel::Return { operand: Some(operand) }
}

/// Returns a value.
pub fn return_value(operand: &Operand) -> (r: Instruction)
    ensures
        r.deep_view() == returns_value(operand.deep_view()),
{
    Instruction::Return { operand: Some(operand.dup()) }
}

/// Returns without a value.
pub open spec fn returns_nothing() -> InstructionModel {
    InstructionModel::Return { operand: None }
}

/// Returns without a value.
pub fn return_nothing() -> (r: Instruction)
    ensures
        r.deep_view() == returns_nothing(),
{
    Instruction::Return { operand: None }
}

/// Throws an exception with a message.
pub open spec fn throws_new(exception_class: Text, message: Text) -> InstructionModel {
    InstructionModel::ThrowNewWithMessage { exception_class, message }
}

/// Throws an exception with a message.
pub fn throw_new(exception_class: &str, message: &str) -> (r: Instruction)
    ensures
        r.deep_view() == throws_new(exception_class@, message@),
{
    Instruction::ThrowNewWithMessage {
        exception_class: exception_class.to_string(),
        message: message.to_string(),
    }
}

/// A block under its label.
pub open spec fn labelled(label: Text, instructions: Seq<InstructionModel>) -> BasicBlockModel {
    BasicBlockModel { label, instructions }
}

/// Blocks with one more.
pub open spec fn block_put(
    label: Text,
    instructions: Seq<InstructionModel>,
    blocks: Map<Text, BasicBlockModel>,
) -> Map<Text, BasicBlockModel> {
    blocks.insert(label, labelled(label, instructions))
}

/// Adds a block under its label.
pub fn put_block(label: &str, instructions: &Vec<Instruction>, blocks: &mut NameMap<BasicBlock>)
    ensures
        final(blocks).deep_view() == block_put(
            label@,
            instructions.deep_view(),
            old(blocks).deep_view(),
        ),
{
    let ghost before = blocks.deep_view();
    let block = BasicBlock { label: label.to_string(), instructions: instructions.dup() };
    let ghost model = block.deep_view();
    blocks.insert(label.to_string(), block);
    assert(blocks.deep_view() =~= before.insert(label@, model));
}

/// No methods.
pub open spec fn no_methods() -> Map<Text, DataTypeMethodModel> {
    Map::empty()
}

/// No methods.
pub fn empty_methods() -> (r: NameMap<DataTypeMethod>)
    ensures
        r.deep_view() == no_methods(),
{
    let r: NameMap<DataTypeMethod> = NameMap::new();
    assert(r.deep_view() =~= no_methods());
    r
}

/// No blocks.
pub open spec fn no_blocks() -> Map<Text, BasicBlockModel> {
    Map::empty()
}

/// No blocks.
pub fn empty_blocks() -> (r: NameMap<BasicBlock>)
    ensures
        r.deep_view() == no_blocks(),
{
    let r: NameMap<BasicBlock> = NameMap::new();
    assert(r.deep_view() =~= no_blocks());
    r
}

/// Methods with one more function.
pub open spec fn function_put(
    name: Text,
    function: FunctionModel,
    methods: Map<Text, DataTypeMethodModel>,
) -> Map<Text, DataTypeMethodModel> {
    methods.insert(name, DataTypeMethodModel::Function(function))
}

/// Adds a function to methods.
pub fn put_function(name: &str, function: Function, methods: &mut NameMap<DataTypeMethod>)
    ensures
        final(methods).deep_view() == function_put(
            name@,
            function.deep_view(),
            old(methods).deep_view(),
        ),
{
    let ghost before = methods.deep_view();
    let ghost model = function.deep_view();
    methods.insert(name.to_string(), DataTypeMethod::Function(function));
    assert(methods.deep_view() =~= function_put(name@, model, before));
}

/// Constructor arguments with one more.
pub open spec fn value_appended(
    value: OperandModel,
    ty: TypeModel,
    values: Seq<(OperandModel, TypeModel)>,
) -> Seq<(OperandModel, TypeModel)> {
    values.push((value, ty))
}

/// Adds a constructor argument.
pub fn append_value(value: &Operand, ty: &Type, values: &mut Vec<(Operand, Type)>)
    ensures
        final(values).deep_view() == value_appended(
            value.deep_view(),
            ty.deep_view(),
            old(values).deep_view(),
        ),
{
    let ghost before = values.deep_view();
    values.push((value.dup(), ty.dup()));
    assert(values.deep_view() =~= value_appended(value.deep_view(), ty.deep_view(), before));
}

/// The code so far as a block, and the code that goes on behind it.
pub open spec fn flushed(
    label: Text,
    code: CodeModel,
    blocks: Map<Text, BasicBlockModel>,
) -> (CodeModel, Map<Text, BasicBlockModel>) {
    (empty_code(code.temps), block_put(label, code.instructions, blocks))
}

/// Makes the code so far a block.
pub fn flush_block(label: &str, code: &mut Code, blocks: &mut NameMap<BasicBlock>)
    ensures
        (final(code).deep_view(), final(blocks).deep_view()) == flushed(
            label@,
            old(code).deep_view(),
            old(blocks).deep_view(),
        ),
{
    put_block(label, &code.instructions, blocks);
    *code = Code::new(code.temps);
}

/// The digits of a number.
pub fn decimal_usize(n: usize) -> (r: String)
    ensures
        r@ == decimal_text(n as nat),
{
    decimal(n as u128)
}

/// The label of the only block of straight-line code.
pub const ONLY_BLOCK: &'static str = "bb0";

/// A body of one block.
pub open spec fn single_block(instructions: Seq<InstructionModel>) -> CodeBlockModel {
    CodeBlockModel {
        entry: ONLY_BLOCK@,
        basic_blocks: Map::empty().insert(ONLY_BLOCK@, labelled(ONLY_BLOCK@, instructions)),
    }
}

/// A body of one block.
pub fn simple_body(instructions: &Vec<Instruction>) -> (r: CodeBlock)
    ensures
        r.deep_view() == single_block(instructions.deep_view()),
{
    let mut basic_blocks: NameMap<BasicBlock> = NameMap::new();
    assert(basic_blocks.deep_view() =~= Map::<Text, BasicBlockModel>::empty());
    put_block(ONLY_BLOCK, instructions, &mut basic_blocks);
    CodeBlock { entry: ONLY_BLOCK.to_string(), basic_blocks }
}

/// A body that reports an unsupported operation.
pub open spec fn unsupported_body(message: Text) -> CodeBlockModel {
    single_block(seq![throws_new("java/lang/UnsupportedOperationException"@, message)])
}

/// A body that reports an unsupported operation.
pub fn unsupported_union_body(message: &str) -> (r: CodeBlock)
    ensures
        r.deep_view() == unsupported_body(message@),
{
    let instructions = vec![throw_new("java/lang/UnsupportedOperationException", message)];
    assert(instructions.deep_view() =~= seq![
        throws_new("java/lang/UnsupportedOperationException"@, message@),
    ]);
    simple_body(&instructions)
}

/// A function without owner and without debug variables.
pub open spec fn plain_function(
    name: Text,
    signature: SignatureModel,
    body: CodeBlockModel,
) -> FunctionModel {
    FunctionModel { name, owner_class: None, signature, debug_variables: Seq::empty(), body }
}

/// A function without owner and without debug variables.
pub fn make_function(name: &str, signature: Signature, body: CodeBlock) -> (r: Function)
    ensures
        r.deep_view() == plain_function(name@, signature.deep_view(), body.deep_view()),
{
    let r = Function {
        name: name.to_string(),
        owner_class: None,
        signature,
        debug_variables: Vec::new(),
        body,
    };
    assert(r.debug_variables.deep_view() =~= Seq::<Text>::empty());
    r
}

} // verus!
