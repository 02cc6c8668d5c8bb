//! The object-oriented intermediate representation: types, values, instructions, functions and
//! data types, each with its mathematical model.
use crate::name_map::NameMap;
use crate::text::same;
use vstd::prelude::*;

verus! {

/// A name or another piece of text in a specification.
pub type Text = Seq<char>;

/// The model of a [`Type`].
pub type TypeModel = Type<Text>;

/// The model of a [`Constant`].
pub type ConstantModel = Constant<Text>;

/// The model of an [`Operand`].
pub type OperandModel = Operand<Text>;

/// A value type of the intermediate representation; `S` holds its names.
#[derive(Debug, PartialEq, Eq)]
pub enum Type<S = String> {
    I8,
    U8,
    I16,
    U16,
    I32,
    U32,
    I64,
    U64,
    F16,
    F32,
    F64,
    Boolean,
    Char,
    Str,
    Unit,
    Void,
    Reference(Box<Type<S>>),
    MutableReference(Box<Type<S>>),
    Pointer(Box<Type<S>>),
    Array(Box<Type<S>>),
    Slice(Box<Type<S>>),
    Class(S),
    Interface(S),
}

/// A copy that has the same model.
pub trait Duplicate: DeepView + Sized {
    /// Makes the copy.
    fn dup(&self) -> (r: Self)
        ensures
            r.deep_view() == self.deep_view(),
    ;
}

impl Duplicate for String {
    fn dup(&self) -> (r: Self) {
        self.clone()
    }
}

impl<A: Duplicate, B: Duplicate> Duplicate for (A, B) {
    fn dup(&self) -> (r: Self) {
        (self.0.dup(), self.1.dup())
    }
}

impl<A: Duplicate> Duplicate for Option<A> {
    fn dup(&self) -> (r: Self) {
        match self {
            Some(a) => Some(a.dup()),
            None => None,
        }
    }
}

impl<A: Duplicate> Duplicate for Vec<A> {
    fn dup(&self) -> (r: Self) {
        let mut r: Vec<A> = Vec::new();
        for i in 0..self.len()
            invariant
                r@.len() == i,
                forall|k: int| #![trigger r@[k]] 0 <= k < i
                    ==> r@[k].deep_view() == self@[k].deep_view(),
        {
            r.push(self[i].dup());
        }
        assert(r.deep_view() =~= self.deep_view());
        r
    }
}

/// The model of a type: the same type with its names as character sequences.
pub open spec fn type_model(ty: Type) -> TypeModel
    decreases ty,
{
    match ty {
        Type::I8 => Type::I8,
        Type::U8 => Type::U8,
        Type::I16 => Type::I16,
        Type::U16 => Type::U16,
        Type::I32 => Type::I32,
        Type::U32 => Type::U32,
        Type::I64 => Type::I64,
        Type::U64 => Type::U64,
        Type::F16 => Type::F16,
        Type::F32 => Type::F32,
        Type::F64 => Type::F64,
        Type::Boolean => Type::Boolean,
        Type::Char => Type::Char,
        Type::Str => Type::Str,
        Type::Unit => Type::Unit,
        Type::Void => Type::Void,
        Type::Reference(inner) => Type::Reference(Box::new(type_model(*inner))),
        Type::MutableReference(inner) => Type::MutableReference(Box::new(type_model(*inner))),
        Type::Pointer(inner) => Type::Pointer(Box::new(type_model(*inner))),
        Type::Array(inner) => Type::Array(Box::new(type_model(*inner))),
        Type::Slice(inner) => Type::Slice(Box::new(type_model(*inner))),
        Type::Class(name) => Type::Class(name@),
        Type::Interface(name) => Type::Interface(name@),
    }
}

impl DeepView for Type {
    type V = TypeModel;

    open spec fn deep_view(&self) -> TypeModel {
        type_model(*self)
    }
}

impl Duplicate for Type {
    fn dup(&self) -> (r: Self)
        decreases self,
    {
        match self {
            Type::I8 => Type::I8,
            Type::U8 => Type::U8,
            Type::I16 => Type::I16,
            Type::U16 => Type::U16,
            Type::I32 => Type::I32,
            Type::U32 => Type::U32,
            Type::I64 => Type::I64,
            Type::U64 => Type::U64,
            Type::F16 => Type::F16,
            Type::F32 => Type::F32,
            Type::F64 => Type::F64,
            Type::Boolean => Type::Boolean,
            Type::Char => Type::Char,
            Type::Str => Type::Str,
            Type::Unit => Type::Unit,
            Type::Void => Type::Void,
            Type::Reference(inner) => Type::Reference(Box::new((**inner).dup())),
            Type::MutableReference(inner) => Type::MutableReference(Box::new((**inner).dup())),
            Type::Pointer(inner) => Type::Pointer(Box::new((**inner).dup())),
            Type::Array(inner) => Type::Array(Box::new((**inner).dup())),
            Type::Slice(inner) => Type::Slice(Box::new((**inner).dup())),
            Type::Class(name) => Type::Class(name.clone()),
            Type::Interface(name) => Type::Interface(name.clone()),
        }
    }
}

/// Whether two types have the same model.
pub fn same_type(a: &Type, b: &Type) -> (r: bool)
    ensures
        r == (a.deep_view() == b.deep_view()),
    decreases a,
{
    match (a, b) {
        (Type::I8, Type::I8) => true,
        (Type::U8, Type::U8) => true,
        (Type::I16, Type::I16) => true,
        (Type::U16, Type::U16) => true,
        (Type::I32, Type::I32) => true,
        (Type::U32, Type::U32) => true,
        (Type::I64, Type::I64) => true,
        (Type::U64, Type::U64) => true,
        (Type::F16, Type::F16) => true,
        (Type::F32, Type::F32) => true,
        (Type::F64, Type::F64) => true,
        (Type::Boolean, Type::Boolean) => true,
        (Type::Char, Type::Char) => true,
        (Type::Str, Type::Str) => true,
        (Type::Unit, Type::Unit) => true,
        (Type::Void, Type::Void) => true,
        (Type::Reference(x), Type::Reference(y)) => same_type(x, y),
        (Type::MutableReference(x), Type::MutableReference(y)) => same_type(x, y),
        (Type::Pointer(x), Type::Pointer(y)) => same_type(x, y),
        (Type::Array(x), Type::Array(y)) => same_type(x, y),
        (Type::Slice(x), Type::Slice(y)) => same_type(x, y),
        (Type::Class(x), Type::Class(y)) => same(x.as_str(), y.as_str()),
        (Type::Interface(x), Type::Interface(y)) => same(x.as_str(), y.as_str()),
        _ => false,
    }
}

/// Whether values of a type occupy a JVM local or stack slot.
pub open spec fn has_value<S>(ty: Type<S>) -> bool {
    !(ty is Unit) && !(ty is Void)
}

impl Type {
    /// Whether values of the type occupy a JVM local or stack slot.
    pub fn has_jvm_value(&self) -> (r: bool)
        ensures
            r == has_value(self.deep_view()),
    {
        !matches!(self, Type::Unit | Type::Void)
    }
}

/// A constant; floating-point constants are held as the bits of their IEEE encoding.
#[derive(Debug, PartialEq, Eq)]
pub enum Constant<S = String> {
    I8(i8),
    U8(u8),
    I16(i16),
    U16(u16),
    I32(i32),
    U32(u32),
    I64(i64),
    U64(u64),
    Boolean(bool),
    Char(char),
    F16(u16),
    F32(u32),
    F64(u64),
    Unit,
    Null(Type<S>),
    String(S),
    /// An object that is built from one text argument.
    Instance { class_name: S, param: S },
}

impl DeepView for Constant {
    type V = ConstantModel;

    open spec fn deep_view(&self) -> ConstantModel {
        match *self {
            Constant::I8(x) => Constant::I8(x),
            Constant::U8(x) => Constant::U8(x),
            Constant::I16(x) => Constant::I16(x),
            Constant::U16(x) => Constant::U16(x),
            Constant::I32(x) => Constant::I32(x),
            Constant::U32(x) => Constant::U32(x),
            Constant::I64(x) => Constant::I64(x),
            Constant::U64(x) => Constant::U64(x),
            Constant::Boolean(x) => Constant::Boolean(x),
            Constant::Char(x) => Constant::Char(x),
            Constant::F16(x) => Constant::F16(x),
            Constant::F32(x) => Constant::F32(x),
            Constant::F64(x) => Constant::F64(x),
            Constant::Unit => Constant::Unit,
            Constant::Null(ty) => Constant::Null(ty.deep_view()),
            Constant::String(text) => Constant::String(text@),
            Constant::Instance { class_name, param } => Constant::Instance {
                class_name: class_name@,
                param: param@,
            },
        }
    }
}

impl Duplicate for Constant {
    fn dup(&self) -> (r: Self) {
        match self {
            Constant::I8(x) => Constant::I8(*x),
            Constant::U8(x) => Constant::U8(*x),
            Constant::I16(x) => Constant::I16(*x),
            Constant::U16(x) => Constant::U16(*x),
            Constant::I32(x) => Constant::I32(*x),
            Constant::U32(x) => Constant::U32(*x),
            Constant::I64(x) => Constant::I64(*x),
            Constant::U64(x) => Constant::U64(*x),
            Constant::Boolean(x) => Constant::Boolean(*x),
            Constant::Char(x) => Constant::Char(*x),
            Constant::F16(x) => Constant::F16(*x),
            Constant::F32(x) => Constant::F32(*x),
            Constant::F64(x) => Constant::F64(*x),
            Constant::Unit => Constant::Unit,
            Constant::Null(ty) => Constant::Null(ty.dup()),
            Constant::String(text) => Constant::String(text.clone()),
            Constant::Instance { class_name, param } => Constant::Instance {
                class_name: class_name.clone(),
                param: param.clone(),
            },
        }
    }
}

/// A value that an instruction reads.
#[derive(Debug, PartialEq, Eq)]
pub enum Operand<S = String> {
    Constant(Constant<S>),
    Variable { name: S, ty: Type<S> },
}

impl DeepView for Operand {
    type V = OperandModel;

    open spec fn deep_view(&self) -> OperandModel {
        match *self {
            Operand::Constant(constant) => Operand::Constant(constant.deep_view()),
            Operand::Variable { name, ty } => Operand::Variable { name: name@, ty: ty.deep_view() },
        }
    }
}

impl Duplicate for Operand {
    fn dup(&self) -> (r: Self) {
        match self {
            Operand::Constant(constant) => Operand::Constant(constant.dup()),
            Operand::Variable { name, ty } => Operand::Variable { name: name.clone(),
                ty: ty.dup() },
        }
    }
}

/// The parameter that carries the location of the caller; it keeps its name inside the body.
pub const CALLER_LOCATION_PARAM_NAME: &'static str = "__caller_location";

/// The class of Java strings.
pub const STRING_CLASS: &'static str = "java/lang/String";

/// The type of a constant.
pub open spec fn constant_type(constant: ConstantModel) -> TypeModel {
    match constant {
        Constant::I8(_) => Type::I8,
        Constant::U8(_) => Type::U8,
        Constant::I16(_) => Type::I16,
        Constant::U16(_) => Type::U16,
        Constant::I32(_) => Type::I32,
        Constant::U32(_) => Type::U32,
        Constant::I64(_) => Type::I64,
        Constant::U64(_) => Type::U64,
        Constant::Boolean(_) => Type::Boolean,
        Constant::Char(_) => Type::Char,
        Constant::F16(_) => Type::F16,
        Constant::F32(_) => Type::F32,
        Constant::F64(_) => Type::F64,
        Constant::Unit => Type::Unit,
        Constant::Null(ty) => ty,
        Constant::String(_) => Type::Class("java/lang/String"@),
        Constant::Instance { class_name, .. } => Type::Class(class_name),
    }
}

/// The type of an operand.
pub open spec fn operand_type(operand: OperandModel) -> TypeModel {
    match operand {
        Operand::Constant(constant) => constant_type(constant),
        Operand::Variable { ty, .. } => ty,
    }
}

impl Operand {
    /// The type of the operand.
    pub fn get_type(&self) -> (r: Type)
        ensures
            r.deep_view() == operand_type(self.deep_view()),
    {
        match self {
            Operand::Variable { ty, .. } => ty.dup(),
            Operand::Constant(constant) => match constant {
                Constant::I8(_) => Type::I8,
                Constant::U8(_) => Type::U8,
                Constant::I16(_) => Type::I16,
                Constant::U16(_) => Type::U16,
                Constant::I32(_) => Type::I32,
                Constant::U32(_) => Type::U32,
                Constant::I64(_) => Type::I64,
                Constant::U64(_) => Type::U64,
                Constant::Boolean(_) => Type::Boolean,
                Constant::Char(_) => Type::Char,
                Constant::F16(_) => Type::F16,
                Constant::F32(_) => Type::F32,
                Constant::F64(_) => Type::F64,
                Constant::Unit => Type::Unit,
                Constant::Null(ty) => ty.dup(),
                Constant::String(_) => Type::Class("java/lang/String".to_string()),
                Constant::Instance { class_name, .. } => Type::Class(class_name.clone()),
            },
        }
    }
}

/// An arithmetic or bitwise operation.
#[derive(Debug, Clone, Copy, PartialEq, Eq, Structural)]
pub enum BinaryOp {
    Add,
    Sub,
    Mul,
    Div,
    Rem,
    BitAnd,
    BitOr,
    BitXor,
    Shl,
    Shr,
}

/// A comparison.
#[derive(Debug, Clone, Copy, PartialEq, Eq, Structural)]
pub enum CompareOp {
    Eq,
    Ne,
    Lt,
    Le,
    Gt,
    Ge,
}

/// The parameters and the result of a method.
#[derive(Debug)]
pub struct Signature {
    pub params: Vec<(String, Type)>,
    pub ret: Type,
    pub is_static: bool,
}

/// The model of a [`Signature`].
pub struct SignatureModel {
    pub params: Seq<(Text, TypeModel)>,
    pub ret: TypeModel,
    pub is_static: bool,
}

impl DeepView for Signature {
    type V = SignatureModel;

    open spec fn deep_view(&self) -> SignatureModel {
        SignatureModel {
            params: self.params.deep_view(),
            ret: self.ret.deep_view(),
            is_static: self.is_static,
        }
    }
}

impl Duplicate for Signature {
    fn dup(&self) -> (r: Self) {
        Signature {
            params: self.params.dup(),
            ret: self.ret.dup(),
            is_static: self.is_static,
        }
    }
}

/// One instruction.
#[derive(Debug)]
pub enum Instruction {
    Binary { op: BinaryOp, dest: String, op1: Operand, op2: Operand },
    Compare { op: CompareOp, dest: String, op1: Operand, op2: Operand },
    Not { dest: String, src: Operand },
    Neg { dest: String, src: Operand },
    Move { dest: String, src: Operand },
    Jump { target: String },
    Branch { condition: Operand, true_block: String, false_block: String },
    Switch { discr: Operand, targets: Vec<(Constant, String)>, otherwise: String },
    Return { operand: Option<Operand> },
    CallIndirect { dest: Option<String>, function_ptr: Operand, signature: Signature,
        args: Vec<Operand> },
    InvokeInterface { dest: Option<String>, class_name: String, method_name: String,
        method_ty: Signature, args: Vec<Operand>, operand: Operand },
    InvokeVirtual { dest: Option<String>, class_name: String, method_name: String,
        method_ty: Signature, args: Vec<Operand>, operand: Operand },
    InvokeStatic { dest: Option<String>, class_name: String, method_name: String,
        method_ty: Signature, args: Vec<Operand> },
    InvokeRustStatic { dest: Option<String>, class_name: String, method_name: String,
        method_ty: Signature, args: Vec<Operand> },
    CreateFunctionPointer { dest: String, interface_name: String },
    NewArray { dest: String, element_type: Type, size: Operand },
    ArrayStore { array: String, index: Operand, value: Operand, copy_value: bool },
    ArrayFill { array: String, value: Operand },
    ArrayGet { dest: String, array: Operand, index: Operand },
    Length { dest: String, array: Operand },
    ConstructObject { dest: String, class_name: String, args: Vec<(Operand, Type)> },
    SetField { object: String, field_name: String, value: Operand, field_ty: Type,
        owner_class: String },
    GetField { dest: String, object: Operand, field_name: String, field_ty: Type,
        owner_class: String },
    Cast { op: Operand, ty: Type, dest: String },
    ThrowNewWithMessage { exception_class: String, message: String },
    UnwindStart { target: String },
    UnwindEnd,
    Rethrow,
    SourceLocation(u32),
    LocalVariableScope(u32),
}

/// The model of a [`Instruction`].
pub enum InstructionModel {
    Binary { op: BinaryOp, dest: Text, op1: OperandModel, op2: OperandModel },
    Compare { op: CompareOp, dest: Text, op1: OperandModel, op2: OperandModel },
    Not { dest: Text, src: OperandModel },
    Neg { dest: Text, src: OperandModel },
    Move { dest: Text, src: OperandModel },
    Jump { target: Text },
    Branch { condition: OperandModel, true_block: Text, false_block: Text },
    Switch { discr: OperandModel, targets: Seq<(ConstantModel, Text)>, otherwise: Text },
    Return { operand: Option<OperandModel> },
    CallIndirect { dest: Option<Text>, function_ptr: OperandModel, signature: SignatureModel,
        args: Seq<OperandModel> },
    InvokeInterface { dest: Option<Text>, class_name: Text, method_name: Text,
        method_ty: SignatureModel, args: Seq<OperandModel>, operand: OperandModel },
    InvokeVirtual { dest: Option<Text>, class_name: Text, method_name: Text,
        method_ty: SignatureModel, args: Seq<OperandModel>, operand: OperandModel },
    InvokeStatic { dest: Option<Text>, class_name: Text, method_name: Text,
        method_ty: SignatureModel, args: Seq<OperandModel> },
    InvokeRustStatic { dest: Option<Text>, class_name: Text, method_name: Text,
        method_ty: SignatureModel, args: Seq<OperandModel> },
    CreateFunctionPointer { dest: Text, interface_name: Text },
    NewArray { dest: Text, element_type: TypeModel, size: OperandModel },
    ArrayStore { array: Text, index: OperandModel, value: OperandModel, copy_value: bool },
    ArrayFill { array: Text, value: OperandModel },
    ArrayGet { dest: Text, array: OperandModel, index: OperandModel },
    Length { dest: Text, array: OperandModel },
    ConstructObject { dest: Text, class_name: Text, args: Seq<(OperandModel, TypeModel)> },
    SetField { object: Text, field_name: Text, value: OperandModel, field_ty: TypeModel,
        owner_class: Text },
    GetField { dest: Text, object: OperandModel, field_name: Text, field_ty: TypeModel,
        owner_class: Text },
    Cast { op: OperandModel, ty: TypeModel, dest: Text },
    ThrowNewWithMessage { exception_class: Text, message: Text },
    UnwindStart { target: Text },
    UnwindEnd,
    Rethrow,
    SourceLocation(u32),
    LocalVariableScope(u32),
}

impl DeepView for Instruction {
    type V = InstructionModel;

    open spec fn deep_view(&self) -> InstructionModel {
        match *self {
            Instruction::Binary { op, dest, op1, op2 } => InstructionModel::Binary {
                op,
                dest: dest@,
                op1: op1.deep_view(),
                op2: op2.deep_view(),
            },
            Instruction::Compare { op, dest, op1, op2 } => InstructionModel::Compare {
                op,
                dest: dest@,
                op1: op1.deep_view(),
                op2: op2.deep_view(),
            },
            Instruction::Not { dest, src } => InstructionModel::Not {
                dest: dest@,
                src: src.deep_view(),
            },
            Instruction::Neg { dest, src } => InstructionModel::Neg {
                dest: dest@,
                src: src.deep_view(),
            },
            Instruction::Move { dest, src } => InstructionModel::Move {
                dest: dest@,
                src: src.deep_view(),
            },
            Instruction::Jump { target } => InstructionModel::Jump {
                target: target@,
            },
            Instruction::Branch { condition, true_block, false_block } => InstructionModel::Branch {
                condition: condition.deep_view(),
                true_block: true_block@,
                false_block: false_block@,
            },
            Instruction::Switch { discr, targets, otherwise } => InstructionModel::Switch {
                discr: discr.deep_view(),
                targets: targets.deep_view(),
                otherwise: otherwise@,
            },
            Instruction::Return { operand } => InstructionModel::Return {
                operand: operand.deep_view(),
            },
            Instruction::CallIndirect { dest, function_ptr, signature,
                args } => InstructionModel::CallIndirect {
                dest: dest.deep_view(),
                function_ptr: function_ptr.deep_view(),
                signature: signature.deep_view(),
                args: args.deep_view(),
            },
            Instruction::InvokeInterface { dest, class_name, method_name, method_ty, args,
                operand } => InstructionModel::InvokeInterface {
                dest: dest.deep_view(),
                class_name: class_name@,
                method_name: method_name@,
                method_ty: method_ty.deep_view(),
                args: args.deep_view(),
                operand: operand.deep_view(),
            },
            Instruction::InvokeVirtual { dest, class_name, method_name, method_ty, args,
                operand } => InstructionModel::InvokeVirtual {
                dest: dest.deep_view(),
                class_name: class_name@,
                method_name: method_name@,
                method_ty: method_ty.deep_view(),
                args: args.deep_view(),
                operand: operand.deep_view(),
            },
            Instruction::InvokeStatic { dest, class_name, method_name, method_ty,
                args } => InstructionModel::InvokeStatic {
                dest: dest.deep_view(),
                class_name: class_name@,
                method_name: method_name@,
                method_ty: method_ty.deep_view(),
                args: args.deep_view(),
            },
            Instruction::InvokeRustStatic { dest, class_name, method_name, method_ty,
                args } => InstructionModel::InvokeRustStatic {
                dest: dest.deep_view(),
                class_name: class_name@,
                method_name: method_name@,
                method_ty: method_ty.deep_view(),
                args: args.deep_view(),
            },
            Instruction::CreateFunctionPointer { dest,
                interface_name } => InstructionModel::CreateFunctionPointer {
                dest: dest@,
                interface_name: interface_name@,
            },
            Instruction::NewArray { dest, element_type, size } => InstructionModel::NewArray {
                dest: dest@,
                element_type: element_type.deep_view(),
                size: size.deep_view(),
            },
            Instruction::ArrayStore { array, index, value,
                copy_value } => InstructionModel::ArrayStore {
                array: array@,
                index: index.deep_view(),
                value: value.deep_view(),
                copy_value,
            },
            Instruction::ArrayFill { array, value } => InstructionModel::ArrayFill {
                array: array@,
                value: value.deep_view(),
            },
            Instruction::ArrayGet { dest, array, index } => InstructionModel::ArrayGet {
                dest: dest@,
                array: array.deep_view(),
                index: index.deep_view(),
            },
            Instruction::Length { dest, array } => InstructionModel::Length {
                dest: dest@,
                array: array.deep_view(),
            },
            Instruction::ConstructObject { dest, class_name,
                args } => InstructionModel::ConstructObject {
                dest: dest@,
                class_name: class_name@,
                args: args.deep_view(),
            },
            Instruction::SetField { object, field_name, value, field_ty,
                owner_class } => InstructionModel::SetField {
                object: object@,
                field_name: field_name@,
                value: value.deep_view(),
                field_ty: field_ty.deep_view(),
                owner_class: owner_class@,
            },
            Instruction::GetField { dest, object, field_name, field_ty,
                owner_class } => InstructionModel::GetField {
                dest: dest@,
                object: object.deep_view(),
                field_name: field_name@,
                field_ty: field_ty.deep_view(),
                owner_class: owner_class@,
            },
            Instruction::Cast { op, ty, dest } => InstructionModel::Cast {
                op: op.deep_view(),
                ty: ty.deep_view(),
                dest: dest@,
            },
            Instruction::ThrowNewWithMessage { exception_class,
                message } => InstructionModel::ThrowNewWithMessage {
                exception_class: exception_class@,
                message: message@,
            },
            Instruction::UnwindStart { target } => InstructionModel::UnwindStart {
                target: target@,
            },
            Instruction::UnwindEnd => InstructionModel::UnwindEnd,
            Instruction::Rethrow => InstructionModel::Rethrow,
            Instruction::SourceLocation(x) => InstructionModel::SourceLocation(x),
            Instruction::LocalVariableScope(x) => InstructionModel::LocalVariableScope(x),
        }
    }
}

impl Duplicate for Instruction {
    fn dup(&self) -> (r: Self) {
        match self {
            Instruction::Binary { op, dest, op1, op2 } => Instruction::Binary {
                op: *op,
                dest: dest.clone(),
                op1: op1.dup(),
                op2: op2.dup(),
            },
            Instruction::Compare { op, dest, op1, op2 } => Instruction::Compare {
                op: *op,
                dest: dest.clone(),
                op1: op1.dup(),
                op2: op2.dup(),
            },
            Instruction::Not { dest, src } => Instruction::Not {
                dest: dest.clone(),
                src: src.dup(),
            },
            Instruction::Neg { dest, src } => Instruction::Neg {
                dest: dest.clone(),
                src: src.dup(),
            },
            Instruction::Move { dest, src } => Instruction::Move {
                dest: dest.clone(),
                src: src.dup(),
            },
            Instruction::Jump { target } => Instruction::Jump {
                target: target.clone(),
            },
            Instruction::Branch { condition, true_block, false_block } => Instruction::Branch {
                condition: condition.dup(),
                true_block: true_block.clone(),
                false_block: false_block.clone(),
            },
            Instruction::Switch { discr, targets, otherwise } => Instruction::Switch {
                discr: discr.dup(),
                targets: targets.dup(),
                otherwise: otherwise.clone(),
            },
            Instruction::Return { operand } => Instruction::Return {
                operand: operand.dup(),
            },
            Instruction::CallIndirect { dest, function_ptr, signature,
                args } => Instruction::CallIndirect {
                dest: dest.dup(),
                function_ptr: function_ptr.dup(),
                signature: signature.dup(),
                args: args.dup(),
            },
            Instruction::InvokeInterface { dest, class_name, method_name, method_ty, args,
                operand } => Instruction::InvokeInterface {
                dest: dest.dup(),
                class_name: class_name.clone(),
                method_name: method_name.clone(),
                method_ty: method_ty.dup(),
                args: args.dup(),
                operand: operand.dup(),
            },
            Instruction::InvokeVirtual { dest, class_name, method_name, method_ty, args,
                operand } => Instruction::InvokeVirtual {
                dest: dest.dup(),
                class_name: class_name.clone(),
                method_name: method_name.clone(),
                method_ty: method_ty.dup(),
                args: args.dup(),
                operand: operand.dup(),
            },
            Instruction::InvokeStatic { dest, class_name, method_name, method_ty,
                args } => Instruction::InvokeStatic {
                dest: dest.dup(),
                class_name: class_name.clone(),
                method_name: method_name.clone(),
                method_ty: method_ty.dup(),
                args: args.dup(),
            },
            Instruction::InvokeRustStatic { dest, class_name, method_name, method_ty,
                args } => Instruction::InvokeRustStatic {
                dest: dest.dup(),
                class_name: class_name.clone(),
                method_name: method_name.clone(),
                method_ty: method_ty.dup(),
                args: args.dup(),
            },
            Instruction::CreateFunctionPointer { dest,
                interface_name } => Instruction::CreateFunctionPointer {
                dest: dest.clone(),
                interface_name: interface_name.clone(),
            },
            Instruction::NewArray { dest, element_type, size } => Instruction::NewArray {
                dest: dest.clone(),
                element_type: element_type.dup(),
                size: size.dup(),
            },
            Instruction::ArrayStore { array, index, value, copy_value } => Instruction::ArrayStore {
                array: array.clone(),
                index: index.dup(),
                value: value.dup(),
                copy_value: *copy_value,
            },
            Instruction::ArrayFill { array, value } => Instruction::ArrayFill {
                array: array.clone(),
                value: value.dup(),
            },
            Instruction::ArrayGet { dest, array, index } => Instruction::ArrayGet {
                dest: dest.clone(),
                array: array.dup(),
                index: index.dup(),
            },
            Instruction::Length { dest, array } => Instruction::Length {
                dest: dest.clone(),
                array: array.dup(),
            },
            Instruction::ConstructObject { dest, class_name,
                args } => Instruction::ConstructObject {
                dest: dest.clone(),
                class_name: class_name.clone(),
                args: args.dup(),
            },
            Instruction::SetField { object, field_name, value, field_ty,
                owner_class } => Instruction::SetField {
                object: object.clone(),
                field_name: field_name.clone(),
                value: value.dup(),
                field_ty: field_ty.dup(),
                owner_class: owner_class.clone(),
            },
            Instruction::GetField { dest, object, field_name, field_ty,
                owner_class } => Instruction::GetField {
                dest: dest.clone(),
                object: object.dup(),
                field_name: field_name.clone(),
                field_ty: field_ty.dup(),
                owner_class: owner_class.clone(),
            },
            Instruction::Cast { op, ty, dest } => Instruction::Cast {
                op: op.dup(),
                ty: ty.dup(),
                dest: dest.clone(),
            },
            Instruction::ThrowNewWithMessage { exception_class,
                message } => Instruction::ThrowNewWithMessage {
                exception_class: exception_class.clone(),
                message: message.clone(),
            },
            Instruction::UnwindStart { target } => Instruction::UnwindStart {
                target: target.clone(),
            },
            Instruction::UnwindEnd => Instruction::UnwindEnd,
            Instruction::Rethrow => Instruction::Rethrow,
            Instruction::SourceLocation(x) => Instruction::SourceLocation(*x),
            Instruction::LocalVariableScope(x) => Instruction::LocalVariableScope(*x),
        }
    }
}

/// A labelled straight-line piece of code.
#[derive(Debug)]
pub struct BasicBlock {
    pub label: String,
    pub instructions: Vec<Instruction>,
}

/// The model of a [`BasicBlock`].
pub struct BasicBlockModel {
    pub label: Text,
    pub instructions: Seq<InstructionModel>,
}

impl DeepView for BasicBlock {
    type V = BasicBlockModel;

    open spec fn deep_view(&self) -> BasicBlockModel {
        BasicBlockModel {
            label: self.label@,
            instructions: self.instructions.deep_view(),
        }
    }
}

impl Duplicate for BasicBlock {
    fn dup(&self) -> (r: Self) {
        BasicBlock {
            label: self.label.clone(),
            instructions: self.instructions.dup(),
        }
    }
}

/// The body of a function: its blocks by label.
#[derive(Debug)]
pub struct CodeBlock {
    pub entry: String,
    pub basic_blocks: NameMap<BasicBlock>,
}

/// The model of a [`CodeBlock`].
pub struct CodeBlockModel {
    pub entry: Text,
    pub basic_blocks: Map<Text, BasicBlockModel>,
}

impl DeepView for CodeBlock {
    type V = CodeBlockModel;

    open spec fn deep_view(&self) -> CodeBlockModel {
        CodeBlockModel {
            entry: self.entry@,
            basic_blocks: self.basic_blocks.deep_view(),
        }
    }
}

/// A function with its body.
#[derive(Debug)]
pub struct Function {
    pub name: String,
    pub owner_class: Option<String>,
    pub signature: Signature,
    pub debug_variables: Vec<String>,
    pub body: CodeBlock,
}

/// The model of a [`Function`].
pub struct FunctionModel {
    pub name: Text,
    pub owner_class: Option<Text>,
    pub signature: SignatureModel,
    pub debug_variables: Seq<Text>,
    pub body: CodeBlockModel,
}

impl DeepView for Function {
    type V = FunctionModel;

    open spec fn deep_view(&self) -> FunctionModel {
        FunctionModel {
            name: self.name@,
            owner_class: self.owner_class.deep_view(),
            signature: self.signature.deep_view(),
            debug_variables: self.debug_variables.deep_view(),
            body: self.body.deep_view(),
        }
    }
}

/// What a generated helper method of a data type computes.
#[derive(Debug)]
pub enum AdtHelperKind {
    IsVariant { variant_idx: u32 },
    PartialEqEnum { variants: Vec<(String, Vec<Type>)> },
    PartialEqClass { fields: Vec<(String, Type)> },
}

/// The model of a [`AdtHelperKind`].
pub enum AdtHelperKindModel {
    IsVariant { variant_idx: u32 },
    PartialEqEnum { variants: Seq<(Text, Seq<TypeModel>)> },
    PartialEqClass { fields: Seq<(Text, TypeModel)> },
}

impl DeepView for AdtHelperKind {
    type V = AdtHelperKindModel;

    open spec fn deep_view(&self) -> AdtHelperKindModel {
        match *self {
            AdtHelperKind::IsVariant { variant_idx } => AdtHelperKindModel::IsVariant {
                variant_idx,
            },
            AdtHelperKind::PartialEqEnum { variants } => AdtHelperKindModel::PartialEqEnum {
                variants: variants.deep_view(),
            },
            AdtHelperKind::PartialEqClass { fields } => AdtHelperKindModel::PartialEqClass {
                fields: fields.deep_view(),
            },
        }
    }
}

impl Duplicate for AdtHelperKind {
    fn dup(&self) -> (r: Self) {
        match self {
            AdtHelperKind::IsVariant { variant_idx } => AdtHelperKind::IsVariant {
                variant_idx: *variant_idx,
            },
            AdtHelperKind::PartialEqEnum { variants } => AdtHelperKind::PartialEqEnum {
                variants: variants.dup(),
            },
            AdtHelperKind::PartialEqClass { fields } => AdtHelperKind::PartialEqClass {
                fields: fields.dup(),
            },
        }
    }
}

/// A method of a data type.
#[derive(Debug)]
pub enum DataTypeMethod {
    SimpleConstantReturn(Type, Option<Constant>),
    Function(Function),
    AdtHelperMethod { kind: AdtHelperKind },
}

/// The model of a [`DataTypeMethod`].
pub enum DataTypeMethodModel {
    SimpleConstantReturn(TypeModel, Option<ConstantModel>),
    Function(FunctionModel),
    AdtHelperMethod { kind: AdtHelperKindModel },
}

impl DeepView for DataTypeMethod {
    type V = DataTypeMethodModel;

    open spec fn deep_view(&self) -> DataTypeMethodModel {
        match *self {
            DataTypeMethod::SimpleConstantReturn(x, y) => DataTypeMethodModel::SimpleConstantReturn(
                x.deep_view(),
                y.deep_view(),
            ),
            DataTypeMethod::Function(x) => DataTypeMethodModel::Function(x.deep_view()),
            DataTypeMethod::AdtHelperMethod { kind } => DataTypeMethodModel::AdtHelperMethod {
                kind: kind.deep_view(),
            },
        }
    }
}

/// A class or an interface that the module defines.
#[derive(Debug)]
pub enum DataType {
    Class { fields: Vec<(String, Type)>, is_abstract: bool, methods: NameMap<DataTypeMethod>,
        super_class: Option<String>, interfaces: Vec<String> },
    Interface { methods: NameMap<Signature> },
}

/// The model of a [`DataType`].
pub enum DataTypeModel {
    Class { fields: Seq<(Text, TypeModel)>, is_abstract: bool, methods: Map<Text,
        DataTypeMethodModel>, super_class: Option<Text>, interfaces: Seq<Text> },
    Interface { methods: Map<Text, SignatureModel> },
}

impl DeepView for DataType {
    type V = DataTypeModel;

    open spec fn deep_view(&self) -> DataTypeModel {
        match *self {
            DataType::Class { fields, is_abstract, methods, super_class,
                interfaces } => DataTypeModel::Class {
                fields: fields.deep_view(),
                is_abstract,
                methods: methods.deep_view(),
                super_class: super_class.deep_view(),
                interfaces: interfaces.deep_view(),
            },
            DataType::Interface { methods } => DataTypeModel::Interface {
                methods: methods.deep_view(),
            },
        }
    }
}

} // verus!
