//! Class files before their constants are numbered: members, code and the classes that hold them.
use crate::constant_pool::Reference;
use crate::descriptor::{
    FieldType, FieldTypeModel, OBJECT_CLASS, descriptor, field_type,
    oomir_type_to_ristretto_field_type,
};
use crate::oomir::{Constant, ConstantModel, Duplicate, Text, Type, TypeModel};
use vstd::prelude::*;
use vstd::string::*;

verus! {

/// What a JVM instruction moves: the kinds of values, and nothing.
#[derive(Debug, Clone, Copy, PartialEq, Eq, Structural)]
pub enum Kind {
    Int,
    Long,
    Float,
    Double,
    Reference,
    Nothing,
}

/// When a branch is taken.
#[derive(Debug, Clone, Copy, PartialEq, Eq, Structural)]
pub enum Condition {
    IsZero,
    IsNotZero,
    IntsDiffer,
    IntIsAtLeast,
    IntIsGreater,
    ReferencesDiffer,
}

/// A field or a method of a class.
#[derive(Debug)]
pub struct MemberRef<S = String> {
    pub owner: S,
    pub name: S,
    pub descriptor: S,
}

/// The model of a [`MemberRef`].
pub type MemberRefModel = MemberRef<Text>;

impl DeepView for MemberRef {
    type V = MemberRefModel;

    open spec fn deep_view(&self) -> MemberRefModel {
        MemberRef { owner: self.owner@, name: self.name@, descriptor: self.descriptor@ }
    }
}

impl Duplicate for MemberRef {
    fn dup(&self) -> (r: Self) {
        MemberRef {
            owner: self.owner.clone(),
            name: self.name.clone(),
            descriptor: self.descriptor.clone(),
        }
    }
}

/// An instruction of the JVM; branches name the position of an instruction.
#[derive(Debug)]
pub enum Op<S = String> {
    /// Pushes a local variable.
    Load { kind: Kind, local: u16 },
    /// Pops into a local variable.
    Store { kind: Kind, local: u16 },
    /// Pushes a number.
    PushInt { value: i32 },
    /// Pushes the number zero in 64 bits.
    PushLongZero,
    /// Pushes a string.
    PushText { text: S },
    /// Pushes a constant.
    PushConstant { constant: Constant<S> },
    /// Reads a field of an object.
    GetField { member: MemberRef<S> },
    /// Writes a field of an object.
    PutField { member: MemberRef<S> },
    /// Reads a field of a class.
    GetStatic { member: MemberRef<S> },
    /// Calls a method of an object.
    InvokeVirtual { member: MemberRef<S> },
    /// Calls a constructor.
    InvokeSpecial { member: MemberRef<S> },
    /// Calls a method of a class.
    InvokeStatic { member: MemberRef<S> },
    /// Calls a method of an interface.
    InvokeInterface { member: MemberRef<S>, slots: u8 },
    /// Makes an object.
    New { class_name: S },
    /// Checks the class of an object.
    CheckCast { class_name: S },
    /// Turns an object into a value of a type.
    Cast { ty: Type<S> },
    /// Pushes the top of the stack once more.
    Dup,
    /// Adds two numbers.
    AddInt,
    /// Adds to a local variable.
    Increment { local: u16, by: i16 },
    /// Widens a number.
    IntToLong,
    /// Narrows a number.
    LongToInt,
    /// Compares two numbers of 64 bits.
    CompareLong,
    /// Compares two floating-point numbers of 32 bits.
    CompareFloat,
    /// Compares two floating-point numbers of 64 bits.
    CompareDouble,
    /// Goes to an instruction under a condition.
    Branch { condition: Condition, target: u16 },
    /// Goes to an instruction.
    Goto { target: u16 },
    /// Ends the method.
    Return { kind: Kind },
}

/// The model of an [`Op`].
pub type OpModel = Op<Text>;

impl DeepView for Op {
    type V = OpModel;

    open spec fn deep_view(&self) -> OpModel {
        match *self {
            Op::Load { kind, local } => Op::Load { kind, local },
            Op::Store { kind, local } => Op::Store { kind, local },
            Op::PushInt { value } => Op::PushInt { value },
            Op::PushLongZero => Op::PushLongZero,
            Op::PushText { text } => Op::PushText { text: text@ },
            Op::PushConstant { constant } => Op::PushConstant { constant: constant.deep_view() },
            Op::GetField { member } => Op::GetField { member: member.deep_view() },
            Op::PutField { member } => Op::PutField { member: member.deep_view() },
            Op::GetStatic { member } => Op::GetStatic { member: member.deep_view() },
            Op::InvokeVirtual { member } => Op::InvokeVirtual { member: member.deep_view() },
            Op::InvokeSpecial { member } => Op::InvokeSpecial { member: member.deep_view() },
            Op::InvokeStatic { member } => Op::InvokeStatic { member: member.deep_view() },
            Op::InvokeInterface { member,
                slots } => Op::InvokeInterface { member: member.deep_view(), slots },
            Op::New { class_name } => Op::New { class_name: class_name@ },
            Op::CheckCast { class_name } => Op::CheckCast { class_name: class_name@ },
            Op::Cast { ty } => Op::Cast { ty: ty.deep_view() },
            Op::Dup => Op::Dup,
            Op::AddInt => Op::AddInt,
            Op::Increment { local, by } => Op::Increment { local, by },
            Op::IntToLong => Op::IntToLong,
            Op::LongToInt => Op::LongToInt,
            Op::CompareLong => Op::CompareLong,
            Op::CompareFloat => Op::CompareFloat,
            Op::CompareDouble => Op::CompareDouble,
            Op::Branch { condition, target } => Op::Branch { condition, target },
            Op::Goto { target } => Op::Goto { target },
            Op::Return { kind } => Op::Return { kind },
        }
    }
}

impl Duplicate for Op {
    fn dup(&self) -> (r: Self) {
        match self {
            Op::Load { kind, local } => Op::Load { kind: *kind, local: *local },
            Op::Store { kind, local } => Op::Store { kind: *kind, local: *local },
            Op::PushInt { value } => Op::PushInt { value: *value },
            Op::PushLongZero => Op::PushLongZero,
            Op::PushText { text } => Op::PushText { text: text.clone() },
            Op::PushConstant { constant } => Op::PushConstant { constant: constant.dup() },
            Op::GetField { member } => Op::GetField { member: member.dup() },
            Op::PutField { member } => Op::PutField { member: member.dup() },
            Op::GetStatic { member } => Op::GetStatic { member: member.dup() },
            Op::InvokeVirtual { member } => Op::InvokeVirtual { member: member.dup() },
            Op::InvokeSpecial { member } => Op::InvokeSpecial { member: member.dup() },
            Op::InvokeStatic { member } => Op::InvokeStatic { member: member.dup() },
            Op::InvokeInterface { member, slots } => Op::InvokeInterface { member: member.dup(),
                slots: *slots },
            Op::New { class_name } => Op::New { class_name: class_name.clone() },
            Op::CheckCast { class_name } => Op::CheckCast { class_name: class_name.clone() },
            Op::Cast { ty } => Op::Cast { ty: ty.dup() },
            Op::Dup => Op::Dup,
            Op::AddInt => Op::AddInt,
            Op::Increment { local, by } => Op::Increment { local: *local, by: *by },
            Op::IntToLong => Op::IntToLong,
            Op::LongToInt => Op::LongToInt,
            Op::CompareLong => Op::CompareLong,
            Op::CompareFloat => Op::CompareFloat,
            Op::CompareDouble => Op::CompareDouble,
            Op::Branch { condition, target } => Op::Branch { condition: *condition,
                target: *target },
            Op::Goto { target } => Op::Goto { target: *target },
            Op::Return { kind } => Op::Return { kind: *kind },
        }
    }
}

/// Pushes a local variable.
pub open spec fn op_load(kind: Kind, local: u16) -> OpModel {
    Op::Load { kind, local }
}

/// Pushes a local variable.
pub fn make_load(kind: Kind, local: u16) -> (r: Op)
    ensures
        r.deep_view() == op_load(kind, local),
{
    Op::Load { kind, local }
}

/// Pops into a local variable.
pub open spec fn op_store(kind: Kind, local: u16) -> OpModel {
    Op::Store { kind, local }
}

/// Pops into a local variable.
pub fn make_store(kind: Kind, local: u16) -> (r: Op)
    ensures
        r.deep_view() == op_store(kind, local),
{
    Op::Store { kind, local }
}

/// Pushes a number.
pub open spec fn op_push_int(value: i32) -> OpModel {
    Op::PushInt { value }
}

/// Pushes a number.
pub fn make_push_int(value: i32) -> (r: Op)
    ensures
        r.deep_view() == op_push_int(value),
{
    Op::PushInt { value }
}

/// Pushes the number zero in 64 bits.
pub open spec fn op_push_long_zero() -> OpModel {
    Op::PushLongZero
}

/// Pushes the number zero in 64 bits.
pub fn make_push_long_zero() -> (r: Op)
    ensures
        r.deep_view() == op_push_long_zero(),
{
    Op::PushLongZero
}

/// Pushes a string.
pub open spec fn op_push_text(text: Text) -> OpModel {
    Op::PushText { text }
}

/// Pushes a string.
pub fn make_push_text(text: &str) -> (r: Op)
    ensures
        r.deep_view() == op_push_text(text@),
{
    Op::PushText { text: text.to_string() }
}

/// Pushes a constant.
pub open spec fn op_push_constant(constant: ConstantModel) -> OpModel {
    Op::PushConstant { constant }
}

/// Pushes a constant.
pub fn make_push_constant(constant: &Constant) -> (r: Op)
    ensures
        r.deep_view() == op_push_constant(constant.deep_view()),
{
    Op::PushConstant { constant: constant.dup() }
}

/// Reads a field of an object.
pub open spec fn op_get_field(member: MemberRefModel) -> OpModel {
    Op::GetField { member }
}

/// Reads a field of an object.
pub fn make_get_field(member: &MemberRef) -> (r: Op)
    ensures
        r.deep_view() == op_get_field(member.deep_view()),
{
    Op::GetField { member: member.dup() }
}

/// Writes a field of an object.
pub open spec fn op_put_field(member: MemberRefModel) -> OpModel {
    Op::PutField { member }
}

/// Writes a field of an object.
pub fn make_put_field(member: &MemberRef) -> (r: Op)
    ensures
        r.deep_view() == op_put_field(member.deep_view()),
{
    Op::PutField { member: member.dup() }
}

/// Reads a field of a class.
pub open spec fn op_get_static(member: MemberRefModel) -> OpModel {
    Op::GetStatic { member }
}

/// Reads a field of a class.
pub fn make_get_static(member: &MemberRef) -> (r: Op)
    ensures
        r.deep_view() == op_get_static(member.deep_view()),
{
    Op::GetStatic { member: member.dup() }
}

/// Calls a method of an object.
pub open spec fn op_invoke_virtual(member: MemberRefModel) -> OpModel {
    Op::InvokeVirtual { member }
}

/// Calls a method of an object.
pub fn make_invoke_virtual(member: &MemberRef) -> (r: Op)
    ensures
        r.deep_view() == op_invoke_virtual(member.deep_view()),
{
    Op::InvokeVirtual { member: member.dup() }
}

/// Calls a constructor.
pub open spec fn op_invoke_special(member: MemberRefModel) -> OpModel {
    Op::InvokeSpecial { member }
}

/// Calls a constructor.
pub fn make_invoke_special(member: &MemberRef) -> (r: Op)
    ensures
        r.deep_view() == op_invoke_special(member.deep_view()),
{
    Op::InvokeSpecial { member: member.dup() }
}

/// Calls a method of a class.
pub open spec fn op_invoke_static(member: MemberRefModel) -> OpModel {
    Op::InvokeStatic { member }
}

/// Calls a method of a class.
pub fn make_invoke_static(member: &MemberRef) -> (r: Op)
    ensures
        r.deep_view() == op_invoke_static(member.deep_view()),
{
    Op::InvokeStatic { member: member.dup() }
}

/// Calls a method of an interface.
pub open spec fn op_invoke_interface(member: MemberRefModel, slots: u8) -> OpModel {
    Op::InvokeInterface { member, slots }
}

/// Calls a method of an interface.
pub fn make_invoke_interface(member: &MemberRef, slots: u8) -> (r: Op)
    ensures
        r.deep_view() == op_invoke_interface(member.deep_view(), slots),
{
    Op::InvokeInterface { member: member.dup(), slots }
}

/// Makes an object.
pub open spec fn op_new(class_name: Text) -> OpModel {
    Op::New { class_name }
}

/// Makes an object.
pub fn make_new(class_name: &str) -> (r: Op)
    ensures
        r.deep_view() == op_new(class_name@),
{
    Op::New { class_name: class_name.to_string() }
}

/// Checks the class of an object.
pub open spec fn op_check_cast(class_name: Text) -> OpModel {
    Op::CheckCast { class_name }
}

/// Checks the class of an object.
pub fn make_check_cast(class_name: &str) -> (r: Op)
    ensures
        r.deep_view() == op_check_cast(class_name@),
{
    Op::CheckCast { class_name: class_name.to_string() }
}

/// Turns an object into a value of a type.
pub open spec fn op_cast(ty: TypeModel) -> OpModel {
    Op::Cast { ty }
}

/// Turns an object into a value of a type.
pub fn make_cast(ty: &Type) -> (r: Op)
    ensures
        r.deep_view() == op_cast(ty.deep_view()),
{
    Op::Cast { ty: ty.dup() }
}

/// Pushes the top of the stack once more.
pub open spec fn op_dup() -> OpModel {
    Op::Dup
}

/// Pushes the top of the stack once more.
pub fn make_dup() -> (r: Op)
    ensures
        r.deep_view() == op_dup(),
{
    Op::Dup
}

/// Adds two numbers.
pub open spec fn op_add_int() -> OpModel {
    Op::AddInt
}

/// Adds two numbers.
pub fn make_add_int() -> (r: Op)
    ensures
        r.deep_view() == op_add_int(),
{
    Op::AddInt
}

/// Adds to a local variable.
pub open spec fn op_increment(local: u16, by: i16) -> OpModel {
    Op::Increment { local, by }
}

/// Adds to a local variable.
pub fn make_increment(local: u16, by: i16) -> (r: Op)
    ensures
        r.deep_view() == op_increment(local, by),
{
    Op::Increment { local, by }
}

/// Widens a number.
pub open spec fn op_int_to_long() -> OpModel {
    Op::IntToLong
}

/// Widens a number.
pub fn make_int_to_long() -> (r: Op)
    ensures
        r.deep_view() == op_int_to_long(),
{
    Op::IntToLong
}

/// Narrows a number.
pub open spec fn op_long_to_int() -> OpModel {
    Op::LongToInt
}

/// Narrows a number.
pub fn make_long_to_int() -> (r: Op)
    ensures
        r.deep_view() == op_long_to_int(),
{
    Op::LongToInt
}

/// Compares two numbers of 64 bits.
pub open spec fn op_compare_long() -> OpModel {
    Op::CompareLong
}

/// Compares two numbers of 64 bits.
pub fn make_compare_long() -> (r: Op)
    ensures
        r.deep_view() == op_compare_long(),
{
    Op::CompareLong
}

/// Compares two floating-point numbers of 32 bits.
pub open spec fn op_compare_float() -> OpModel {
    Op::CompareFloat
}

/// Compares two floating-point numbers of 32 bits.
pub fn make_compare_float() -> (r: Op)
    ensures
        r.deep_view() == op_compare_float(),
{
    Op::CompareFloat
}

/// Compares two floating-point numbers of 64 bits.
pub open spec fn op_compare_double() -> OpModel {
    Op::CompareDouble
}

/// Compares two floating-point numbers of 64 bits.
pub fn make_compare_double() -> (r: Op)
    ensures
        r.deep_view() == op_compare_double(),
{
    Op::CompareDouble
}

/// Goes to an instruction under a condition.
pub open spec fn op_branch(condition: Condition, target: u16) -> OpModel {
    Op::Branch { condition, target }
}

/// Goes to an instruction under a condition.
pub fn make_branch(condition: Condition, target: u16) -> (r: Op)
    ensures
        r.deep_view() == op_branch(condition, target),
{
    Op::Branch { condition, target }
}

/// Goes to an instruction.
pub open spec fn op_goto(target: u16) -> OpModel {
    Op::Goto { target }
}

/// Goes to an instruction.
pub fn make_goto(target: u16) -> (r: Op)
    ensures
        r.deep_view() == op_goto(target),
{
    Op::Goto { target }
}

/// Ends the method.
pub open spec fn op_return(kind: Kind) -> OpModel {
    Op::Return { kind }
}

/// Ends the method.
pub fn make_return(kind: Kind) -> (r: Op)
    ensures
        r.deep_view() == op_return(kind),
{
    Op::Return { kind }
}

/// A field or a method of a class.
pub open spec fn member(owner: Text, name: Text, descriptor: Text) -> MemberRefModel {
    MemberRef { owner, name, descriptor }
}

/// A field or a method of a class.
pub fn make_member(owner: &str, name: &str, descriptor: &str) -> (r: MemberRef)
    ensures
        r.deep_view() == member(owner@, name@, descriptor@),
{
    MemberRef {
        owner: owner.to_string(),
        name: name.to_string(),
        descriptor: descriptor.to_string(),
    }
}

/// No instructions.
pub open spec fn no_ops() -> Seq<OpModel> {
    Seq::empty()
}

/// No instructions.
pub fn empty_ops() -> (r: Vec<Op>)
    ensures
        r.deep_view() == no_ops(),
{
    let r: Vec<Op> = Vec::new();
    assert(r.deep_view() =~= no_ops());
    r
}

/// Code with one more instruction.
pub open spec fn op_pushed(op: OpModel, ops: Seq<OpModel>) -> Seq<OpModel> {
    ops.push(op)
}

/// Adds an instruction to code.
pub fn push_op(op: Op, ops: &mut Vec<Op>)
    ensures
        final(ops).deep_view() == op_pushed(op.deep_view(), old(ops).deep_view()),
{
    let ghost before = ops.deep_view();
    let ghost model = op.deep_view();
    ops.push(op);
    assert(ops.deep_view() =~= before.push(model));
}

/// A parameter of a method, as reflection shows it.
#[derive(Debug)]
pub struct MethodParameter<S = String> {
    pub name: S,
    pub is_synthetic: bool,
}

/// The model of a [`MethodParameter`].
pub type MethodParameterModel = MethodParameter<Text>;

impl DeepView for MethodParameter {
    type V = MethodParameterModel;

    open spec fn deep_view(&self) -> MethodParameterModel {
        MethodParameter { name: self.name@, is_synthetic: self.is_synthetic }
    }
}

/// What a method does: nothing of its own, given instructions, or what a function of its data type
/// is lowered to.
#[derive(Debug)]
pub enum MethodBody {
    Abstract,
    Ops { max_stack: u16, max_locals: u16, ops: Vec<Op> },
    Lowered { function: String, is_relative: bool },
}

/// The model of a [`MethodBody`].
pub enum MethodBodyModel {
    Abstract,
    Ops { max_stack: u16, max_locals: u16, ops: Seq<OpModel> },
    Lowered { function: Text, is_relative: bool },
}

impl DeepView for MethodBody {
    type V = MethodBodyModel;

    open spec fn deep_view(&self) -> MethodBodyModel {
        match *self {
            MethodBody::Abstract => MethodBodyModel::Abstract,
            MethodBody::Ops { max_stack, max_locals, ops } => MethodBodyModel::Ops {
                max_stack,
                max_locals,
                ops: ops.deep_view(),
            },
            MethodBody::Lowered { function, is_relative } => MethodBodyModel::Lowered {
                function: function@,
                is_relative,
            },
        }
    }
}

/// A method of a class file.
#[derive(Debug)]
pub struct JvmMethod {
    pub access: u16,
    pub name: String,
    pub descriptor: String,
    pub body: MethodBody,
    /// The names of the parameters, where the class file keeps them.
    pub parameters: Option<Vec<MethodParameter>>,
}

/// The model of a [`JvmMethod`].
pub struct JvmMethodModel {
    pub access: u16,
    pub name: Text,
    pub descriptor: Text,
    pub body: MethodBodyModel,
    pub parameters: Option<Seq<MethodParameterModel>>,
}

impl DeepView for JvmMethod {
    type V = JvmMethodModel;

    open spec fn deep_view(&self) -> JvmMethodModel {
        JvmMethodModel {
            access: self.access,
            name: self.name@,
            descriptor: self.descriptor@,
            body: self.body.deep_view(),
            parameters: self.parameters.deep_view(),
        }
    }
}

/// A field of a class file.
#[derive(Debug)]
pub struct JvmField {
    pub access: u16,
    pub name: String,
    pub descriptor: String,
    pub field_type: FieldType,
}

/// The model of a [`JvmField`].
pub struct JvmFieldModel {
    pub access: u16,
    pub name: Text,
    pub descriptor: Text,
    pub field_type: FieldTypeModel,
}

impl DeepView for JvmField {
    type V = JvmFieldModel;

    open spec fn deep_view(&self) -> JvmFieldModel {
        JvmFieldModel {
            access: self.access,
            name: self.name@,
            descriptor: self.descriptor@,
            field_type: self.field_type.deep_view(),
        }
    }
}

/// A member class of another class.
#[derive(Debug)]
pub struct InnerClass {
    pub class_name: String,
    pub outer_class: String,
    /// The name inside the outer class, if it has one.
    pub name: Option<String>,
    pub access: u16,
}

/// The model of an [`InnerClass`].
pub struct InnerClassModel {
    pub class_name: Text,
    pub outer_class: Text,
    pub name: Option<Text>,
    pub access: u16,
}

impl DeepView for InnerClass {
    type V = InnerClassModel;

    open spec fn deep_view(&self) -> InnerClassModel {
        InnerClassModel {
            class_name: self.class_name@,
            outer_class: self.outer_class@,
            name: self.name.deep_view(),
            access: self.access,
        }
    }
}

/// A class file before its constants are numbered.
#[derive(Debug)]
pub struct ClassFile {
    pub major_version: u16,
    pub minor_version: u16,
    pub access: u16,
    pub this_class: String,
    pub super_class: String,
    pub interfaces: Vec<String>,
    pub fields: Vec<JvmField>,
    pub methods: Vec<JvmMethod>,
    pub inner_classes: Vec<InnerClass>,
    pub source_file: Option<String>,
}

/// The model of a [`ClassFile`].
pub struct ClassFileModel {
    pub major_version: u16,
    pub minor_version: u16,
    pub access: u16,
    pub this_class: Text,
    pub super_class: Text,
    pub interfaces: Seq<Text>,
    pub fields: Seq<JvmFieldModel>,
    pub methods: Seq<JvmMethodModel>,
    pub inner_classes: Seq<InnerClassModel>,
    pub source_file: Option<Text>,
}

impl DeepView for ClassFile {
    type V = ClassFileModel;

    open spec fn deep_view(&self) -> ClassFileModel {
        ClassFileModel {
            major_version: self.major_version,
            minor_version: self.minor_version,
            access: self.access,
            this_class: self.this_class@,
            super_class: self.super_class@,
            interfaces: self.interfaces.deep_view(),
            fields: self.fields.deep_view(),
            methods: self.methods.deep_view(),
            inner_classes: self.inner_classes.deep_view(),
            source_file: self.source_file.deep_view(),
        }
    }
}

/// The major version of the class files of Java 8; their minor version is zero.
pub const JAVA_8: u16 = 52;

/// Access of everyone.
pub const PUBLIC: u16 = 0x0001;

/// Access of everyone, to a member of the class itself.
pub const PUBLIC_STATIC: u16 = 0x0009;

/// Access of everyone, to what subclasses cannot change.
pub const PUBLIC_FINAL: u16 = 0x0011;

/// Access of everyone, to a class.
pub const PUBLIC_SUPER: u16 = 0x0021;

/// Access of everyone, to a class without subclasses.
pub const PUBLIC_FINAL_SUPER: u16 = 0x0031;

/// Access of everyone, to what subclasses provide.
pub const PUBLIC_ABSTRACT: u16 = 0x0401;

/// Access of everyone, to a class that subclasses complete.
pub const PUBLIC_SUPER_ABSTRACT: u16 = 0x0421;

/// Access of everyone, to a member of the class itself that is not provided.
pub const PUBLIC_STATIC_ABSTRACT: u16 = 0x0409;

/// Access of everyone, to an interface.
pub const PUBLIC_INTERFACE: u16 = 0x0601;

/// Access of everyone, to what the source does not show.
pub const PUBLIC_SYNTHETIC: u16 = 0x1001;

/// Access of everyone, to what subclasses cannot change and the source does not show.
pub const PUBLIC_FINAL_SYNTHETIC: u16 = 0x1011;

/// Access of the class alone, to a field that threads share and the source does not show.
pub const PRIVATE_VOLATILE_SYNTHETIC: u16 = 0x1042;

/// A method with instructions.
pub open spec fn method_with_ops(
    access: u16,
    name: Text,
    descriptor: Text,
    max_stack: u16,
    max_locals: u16,
    ops: Seq<OpModel>,
) -> JvmMethodModel {
    JvmMethodModel {
        access,
        name,
        descriptor,
        body: MethodBodyModel::Ops { max_stack, max_locals, ops },
        parameters: None,
    }
}

/// A method with instructions.
pub fn make_method(
    access: u16,
    name: &str,
    descriptor: &str,
    max_stack: u16,
    max_locals: u16,
    ops: Vec<Op>,
) -> (r: JvmMethod)
    ensures
        r.deep_view() == method_with_ops(
            access,
            name@,
            descriptor@,
            max_stack,
            max_locals,
            ops.deep_view(),
        ),
{
    JvmMethod {
        access,
        name: name.to_string(),
        descriptor: descriptor.to_string(),
        body: MethodBody::Ops { max_stack, max_locals, ops },
        parameters: None,
    }
}

/// A method with instructions that keeps the names of its parameters.
pub open spec fn method_with_parameters(
    access: u16,
    name: Text,
    descriptor: Text,
    max_stack: u16,
    max_locals: u16,
    ops: Seq<OpModel>,
    parameters: Seq<MethodParameterModel>,
) -> JvmMethodModel {
    JvmMethodModel {
        access,
        name,
        descriptor,
        body: MethodBodyModel::Ops { max_stack, max_locals, ops },
        parameters: Some(parameters),
    }
}

/// A method with instructions that keeps the names of its parameters.
pub fn make_method_with_parameters(
    access: u16,
    name: &str,
    descriptor: &str,
    max_stack: u16,
    max_locals: u16,
    ops: Vec<Op>,
    parameters: Vec<MethodParameter>,
) -> (r: JvmMethod)
    ensures
        r.deep_view() == method_with_parameters(
            access,
            name@,
            descriptor@,
            max_stack,
            max_locals,
            ops.deep_view(),
            parameters.deep_view(),
        ),
{
    JvmMethod {
        access,
        name: name.to_string(),
        descriptor: descriptor.to_string(),
        body: MethodBody::Ops { max_stack, max_locals, ops },
        parameters: Some(parameters),
    }
}

/// Methods with one more.
pub open spec fn method_appended(
    method: JvmMethodModel,
    jvm_methods: Seq<JvmMethodModel>,
) -> Seq<JvmMethodModel> {
    jvm_methods.push(method)
}

/// Adds a method.
pub fn append_method(method: JvmMethod, jvm_methods: &mut Vec<JvmMethod>)
    ensures
        final(jvm_methods).deep_view() == method_appended(
            method.deep_view(),
            old(jvm_methods).deep_view(),
        ),
{
    let ghost before = jvm_methods.deep_view();
    let ghost model = method.deep_view();
    jvm_methods.push(method);
    assert(jvm_methods.deep_view() =~= before.push(model));
}

/// A field of a class file; its type has a JVM value.
pub open spec fn jvm_field(access: u16, name: Text, ty: TypeModel) -> JvmFieldModel {
    JvmFieldModel {
        access,
        name,
        descriptor: descriptor(ty),
        field_type: known_field_type(ty),
    }
}

/// The type of a field in a class file.
pub open spec fn known_field_type(ty: TypeModel) -> FieldTypeModel {
    match field_type(ty) {
        Some(known) => known,
        None => FieldTypeModel::Object(OBJECT_CLASS@),
    }
}

/// A field of a class file.
pub fn make_jvm_field(access: u16, name: &str, ty: &Type) -> (r: JvmField)
    requires
        field_type(ty.deep_view()) is Some,
    ensures
        r.deep_view() == jvm_field(access, name@, ty.deep_view()),
{
    JvmField {
        access,
        name: name.to_string(),
        descriptor: ty.to_jvm_descriptor(),
        field_type: oomir_type_to_ristretto_field_type(ty),
    }
}

/// A class file without interfaces, member classes and a source file.
pub open spec fn plain_class(
    access: u16,
    this_class: Text,
    super_class: Text,
    fields: Seq<JvmFieldModel>,
    methods: Seq<JvmMethodModel>,
) -> ClassFileModel {
    ClassFileModel {
        major_version: JAVA_8,
        minor_version: 0,
        access,
        this_class,
        super_class,
        interfaces: Seq::empty(),
        fields,
        methods,
        inner_classes: Seq::empty(),
        source_file: None,
    }
}

/// Makes a class file without interfaces, member classes and a source file.
pub fn make_plain_class(
    access: u16,
    this_class: &str,
    super_class: &str,
    fields: Vec<JvmField>,
    methods: Vec<JvmMethod>,
) -> (r: ClassFile)
    ensures
        r.deep_view() == plain_class(
            access,
            this_class@,
            super_class@,
            fields.deep_view(),
            methods.deep_view(),
        ),
{
    let r = ClassFile {
        major_version: JAVA_8,
        minor_version: 0,
        access,
        this_class: this_class.to_string(),
        super_class: super_class.to_string(),
        interfaces: Vec::new(),
        fields,
        methods,
        inner_classes: Vec::new(),
        source_file: None,
    };
    assert(r.deep_view().interfaces =~= Seq::<Text>::empty());
    assert(r.deep_view().inner_classes =~= Seq::<InnerClassModel>::empty());
    r
}

/// No methods.
pub open spec fn no_jvm_methods() -> Seq<JvmMethodModel> {
    Seq::empty()
}

/// No methods.
pub fn empty_jvm_methods() -> (r: Vec<JvmMethod>)
    ensures
        r.deep_view() == no_jvm_methods(),
{
    let r: Vec<JvmMethod> = Vec::new();
    assert(r.deep_view() =~= no_jvm_methods());
    r
}

/// Parameters with one more.
pub open spec fn parameter_appended(
    name: Text,
    is_synthetic: bool,
    parameters: Seq<MethodParameterModel>,
) -> Seq<MethodParameterModel> {
    parameters.push(MethodParameter { name, is_synthetic })
}

/// Adds a parameter.
pub fn append_parameter(name: &str, is_synthetic: bool, parameters: &mut Vec<MethodParameter>)
    ensures
        final(parameters).deep_view() == parameter_appended(
            name@,
            is_synthetic,
            old(parameters).deep_view(),
        ),
{
    let ghost before = parameters.deep_view();
    parameters.push(MethodParameter { name: name.to_string(), is_synthetic });
    assert(parameters.deep_view() =~= before.push(MethodParameter { name: name@, is_synthetic }));
}

/// No parameters.
pub open spec fn no_parameters() -> Seq<MethodParameterModel> {
    Seq::empty()
}

/// No parameters.
pub fn empty_parameters() -> (r: Vec<MethodParameter>)
    ensures
        r.deep_view() == no_parameters(),
{
    let r: Vec<MethodParameter> = Vec::new();
    assert(r.deep_view() =~= no_parameters());
    r
}

/// The kind of the values of a type.
pub open spec fn kind_of(ty: TypeModel) -> Kind {
    match ty {
        Type::I64 => Kind::Long,
        Type::U64 => Kind::Long,
        Type::F32 => Kind::Float,
        Type::F64 => Kind::Double,
        Type::Unit => Kind::Nothing,
        Type::Void => Kind::Nothing,
        Type::I8 => Kind::Int,
        Type::U8 => Kind::Int,
        Type::I16 => Kind::Int,
        Type::U16 => Kind::Int,
        Type::F16 => Kind::Int,
        Type::I32 => Kind::Int,
        Type::U32 => Kind::Int,
        Type::Boolean => Kind::Int,
        Type::Char => Kind::Int,
        _ => Kind::Reference,
    }
}

/// The kind of the values of a type.
pub fn kind_of_type(ty: &Type) -> (r: Kind)
    ensures
        r == kind_of(ty.deep_view()),
{
    match ty {
        Type::I64 | Type::U64 => Kind::Long,
        Type::F32 => Kind::Float,
        Type::F64 => Kind::Double,
        Type::Unit | Type::Void => Kind::Nothing,
        Type::I8 | Type::U8 | Type::I16 | Type::U16 | Type::F16 | Type::I32 | Type::U32
        | Type::Boolean | Type::Char => Kind::Int,
        _ => Kind::Reference,
    }
}

/// The stack or local slots that a value of a type takes.
pub open spec fn slot_width(ty: TypeModel) -> u16 {
    match kind_of(ty) {
        Kind::Nothing => 0,
        Kind::Long => 2,
        Kind::Double => 2,
        _ => 1,
    }
}

/// The stack or local slots that a value of a type takes.
pub fn get_type_size(ty: &Type) -> (r: u16)
    ensures
        r == slot_width(ty.deep_view()),
{
    match kind_of_type(ty) {
        Kind::Nothing => 0,
        Kind::Long | Kind::Double => 2,
        _ => 1,
    }
}

} // verus!
