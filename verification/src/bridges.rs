//! Methods that hand a call on: with offsets beside pointers, or with the receiver as a parameter.
use crate::class_methods::{
    RELATIVE_POINTER_METHOD_SUFFIX, byte_offset_field, element_offset_field, field_parameters,
    larger, relative_fields_are_larger, relative_pointer_byte_offset_field,
    relative_pointer_element_offset_field, relative_slots, relative_slots_grow, slots_before,
    slots_grow,
};
use crate::code::{class, class_type, constant_operand, static_method, static_signature};
use crate::codec::{is_pointer, is_pointer_type};
use crate::descriptor::{descriptor, method_descriptor};
use crate::jvm_ops::{
    JvmMethod, JvmMethodModel, MethodBody, MethodBodyModel, MethodParameter, Op, OpModel,
    PUBLIC_ABSTRACT, PUBLIC_FINAL, PUBLIC_STATIC, append_parameter, empty_ops, empty_parameters,
    get_type_size, kind_of, kind_of_type, make_invoke_static, make_invoke_virtual, make_load,
    make_member, make_method, make_method_with_parameters, make_push_constant,
    make_push_long_zero, make_return, member, method_with_ops, method_with_parameters, no_ops,
    op_invoke_static, op_invoke_virtual, op_load, op_push_constant, op_push_long_zero, op_pushed,
    op_return, push_op, slot_width,
};
use crate::oomir::{
    Duplicate,
    Constant,
    ConstantModel,
    Signature,
    SignatureModel,
    Text,
    Type,
    TypeModel,
    constant_type,
    has_value,
};
use crate::text::cat2;
use vstd::prelude::*;
use vstd::string::*;

verus! {

/// The first parameters, with two offsets behind each pointer.
pub open spec fn relative_params(params: Seq<(Text, TypeModel)>, n: nat) -> Seq<(Text, TypeModel)>
    decreases n,
{
    if n == 0 || n > params.len() {
        Seq::empty()
    } else {
        let own = relative_params(params, (n - 1) as nat).push(params[n - 1]);
        if is_pointer(params[n - 1].1) {
            own.push((element_offset_field(params[n - 1].0), Type::I64)).push(
                (byte_offset_field(params[n - 1].0), Type::I64),
            )
        } else {
            own
        }
    }
}

/// A signature with two offsets behind each pointer.
pub open spec fn relative_signature(signature: SignatureModel) -> SignatureModel {
    SignatureModel {
        params: relative_params(signature.params, signature.params.len()),
        ret: signature.ret,
        is_static: signature.is_static,
    }
}

/// Whether a method can have offsets beside its pointers: it is static and has a pointer.
pub open spec fn can_be_relative(signature: SignatureModel) -> bool {
    signature.is_static && exists|i: int|
        0 <= i < signature.params.len() && is_pointer((#[trigger] signature.params[i]).1)
}

impl Signature {
    /// Whether the method can have offsets beside its pointers.
    pub fn supports_relative_pointer_abi(&self) -> (r: bool)
        ensures
            r == can_be_relative(self.deep_view()),
    {
        let ghost model = self.deep_view();
        if !self.is_static {
            return false;
        }
        for i in 0..self.params.len()
            invariant
                model == self.deep_view(),
                self.is_static,
                forall|k: int| 0 <= k < i ==> !is_pointer((#[trigger] model.params[k]).1),
        {
            assert(model.params[i as int] == self.params@[i as int].deep_view());
            if is_pointer_type(&self.params[i].1) {
                return true;
            }
        }
        false
    }

    /// The signature with two offsets behind each pointer.
    pub fn relative_pointer_abi_signature(&self) -> (r: Signature)
        ensures
            r.deep_view() == relative_signature(self.deep_view()),
    {
        let ghost model = self.deep_view();
        let mut params: Vec<(String, Type)> = Vec::new();
        assert(params.deep_view() =~= relative_params(model.params, 0));
        for i in 0..self.params.len()
            invariant
                model == self.deep_view(),
                params.deep_view() == relative_params(model.params, i as nat),
        {
            assert(model.params[i as int] == self.params@[i as int].deep_view());
            let ghost before = params.deep_view();
            let name = self.params[i].0.as_str();
            let ty = &self.params[i].1;
            params.push((self.params[i].0.clone(), ty.dup()));
            assert(params.deep_view() =~= before.push(model.params[i as int]));
            if is_pointer_type(ty) {
                let ghost before = params.deep_view();
                params.push((relative_pointer_element_offset_field(name), Type::I64));
                params.push((relative_pointer_byte_offset_field(name), Type::I64));
                assert(params.deep_view() =~= before.push(
                    (element_offset_field(name@), Type::I64),
                ).push((byte_offset_field(name@), Type::I64)));
            }
        }
        Signature { params, ret: self.ret.dup(), is_static: self.is_static }
    }
}

/// The code that pushes the first parameters; pointers get two offsets of zero where that is asked.
pub open spec fn params_pushed(
    params: Seq<(Text, TypeModel)>,
    with_offsets: bool,
    n: nat,
    ops: Seq<OpModel>,
) -> Seq<OpModel>
    decreases n,
{
    if n == 0 || n > params.len() {
        ops
    } else {
        let ops = params_pushed(params, with_offsets, (n - 1) as nat, ops);
        let ty = params[n - 1].1;
        if !has_value(ty) {
            ops
        } else {
            let pushed = op_pushed(
                op_load(kind_of(ty), slots_before(params, (n - 1) as nat) as u16),
                ops,
            );
            if with_offsets && is_pointer(ty) {
                op_pushed(op_push_long_zero(), op_pushed(op_push_long_zero(), pushed))
            } else {
                pushed
            }
        }
    }
}

fn push_params(params: &Vec<(String, Type)>, with_offsets: bool, ops: &mut Vec<Op>) -> (r: u16)
    requires
        slots_before(params.deep_view(), params@.len()) <= u16::MAX,
    ensures
        final(ops).deep_view() == params_pushed(
            params.deep_view(),
            with_offsets,
            params@.len(),
            old(ops).deep_view(),
        ),
        r == slots_before(params.deep_view(), params@.len()),
{
    let ghost model = params.deep_view();
    let ghost before = ops.deep_view();
    let mut local: u16 = 0;
    for i in 0..params.len()
        invariant
            model == params.deep_view(),
            slots_before(model, model.len()) <= u16::MAX,
            local == slots_before(model, i as nat),
            ops.deep_view() == params_pushed(model, with_offsets, i as nat, before),
    {
        assert(model[i as int] == params@[i as int].deep_view());
        proof {
            slots_grow(model, (i + 1) as nat, model.len());
        }
        let ty = &params[i].1;
        if ty.has_jvm_value() {
            push_op(make_load(kind_of_type(ty), local), ops);
            if with_offsets && is_pointer_type(ty) {
                push_op(make_push_long_zero(), ops);
                push_op(make_push_long_zero(), ops);
            }
        }
        local = local + get_type_size(ty);
    }
    local
}

/// The slots that the parameters of a method take, with offsets beside pointers.
fn relative_slots_of(params: &Vec<(String, Type)>) -> (r: u16)
    requires
        relative_slots(params.deep_view(), params@.len()) <= u16::MAX,
    ensures
        r == relative_slots(params.deep_view(), params@.len()),
{
    let ghost model = params.deep_view();
    let mut slots: u16 = 0;
    for i in 0..params.len()
        invariant
            model == params.deep_view(),
            relative_slots(model, model.len()) <= u16::MAX,
            slots == relative_slots(model, i as nat),
    {
        assert(model[i as int] == params@[i as int].deep_view());
        proof {
            relative_slots_grow(model, (i + 1) as nat, model.len());
        }
        slots = slots + get_type_size(&params[i].1);
        if is_pointer_type(&params[i].1) {
            slots = slots + 4;
        }
    }
    slots
}

/// The method without offsets that calls the one with offsets, all of them zero.
pub open spec fn relative_bridge(
    class_name: Text,
    method_name: Text,
    signature: SignatureModel,
    access: u16,
) -> JvmMethodModel {
    let params = signature.params;
    method_with_ops(
        access,
        method_name,
        method_descriptor(signature),
        larger(relative_slots(params, params.len()) as u16, slot_width(signature.ret)),
        slots_before(params, params.len()) as u16,
        op_pushed(
            op_return(kind_of(signature.ret)),
            op_pushed(
                op_invoke_static(
                    member(
                        class_name,
                        method_name + RELATIVE_POINTER_METHOD_SUFFIX@,
                        method_descriptor(relative_signature(signature)),
                    ),
                ),
                params_pushed(params, true, params.len(), no_ops()),
            ),
        ),
    )
}

/// Makes the method without offsets that calls the one with offsets.
pub fn create_relative_pointer_bridge(
    class_name: &str,
    method_name: &str,
    signature: &Signature,
    access: u16,
) -> (r: JvmMethod)
    requires
        signature.is_static,
        relative_slots(signature.deep_view().params, signature.params@.len()) <= u16::MAX,
    ensures
        r.deep_view() == relative_bridge(
            class_name@,
            method_name@,
            signature.deep_view(),
            access,
        ),
{
    proof {
        relative_fields_are_larger(signature.deep_view().params, signature.params@.len());
    }
    let relative = signature.relative_pointer_abi_signature();
    let mut ops = empty_ops();
    let locals = push_params(&signature.params, true, &mut ops);
    let stack = relative_slots_of(&signature.params);
    let target = make_member(
        class_name,
        cat2(method_name, RELATIVE_POINTER_METHOD_SUFFIX).as_str(),
        relative.to_descriptor().as_str(),
    );
    push_op(make_invoke_static(&target), &mut ops);
    push_op(make_return(kind_of_type(&signature.ret)), &mut ops);
    let width = get_type_size(&signature.ret);
    make_method(
        access,
        method_name,
        signature.to_descriptor().as_str(),
        if stack > width {
            stack
        } else {
            width
        },
        locals,
        ops,
    )
}

/// The parameters of a static method that takes the receiver of an instance method first.
pub open spec fn receiver_params(
    class_name: Text,
    params: Seq<(Text, TypeModel)>,
) -> Seq<(Text, TypeModel)> {
    params.update(0, (params[0].0, class(class_name)))
}

fn make_receiver_params(class_name: &str, params: &Vec<(String, Type)>) -> (r: Vec<(String, Type)>)
    requires
        params@.len() > 0,
    ensures
        r.deep_view() == receiver_params(class_name@, params.deep_view()),
{
    let mut r = params.dup();
    assert(r.deep_view().len() == params.deep_view().len());
    assert(r@.len() == r.deep_view().len());
    let ghost before = r.deep_view();
    let name = params[0].0.clone();
    assert(params.deep_view()[0] == params@[0].deep_view());
    r.set(0, (name, class_type(class_name)));
    assert(r.deep_view() =~= receiver_params(class_name@, params.deep_view()));
    r
}

/// The static method that calls an instance method on its first parameter.
pub open spec fn instance_bridge(
    class_name: Text,
    method_name: Text,
    signature: SignatureModel,
) -> JvmMethodModel {
    let params = receiver_params(class_name, signature.params);
    let bridge = static_method(params, signature.ret);
    let slots = slots_before(params, params.len()) as u16;
    method_with_parameters(
        PUBLIC_STATIC,
        method_name,
        method_descriptor(bridge),
        larger(slots, slot_width(signature.ret)),
        slots,
        op_pushed(
            op_return(kind_of(signature.ret)),
            op_pushed(
                op_invoke_virtual(
                    member(class_name, method_name, method_descriptor(signature)),
                ),
                params_pushed(params, false, params.len(), no_ops()),
            ),
        ),
        field_parameters(params, params.len()),
    )
}

/// The parameters of a method that have a JVM value, as reflection shows them.
pub fn list_parameters(params: &Vec<(String, Type)>) -> (r: Vec<MethodParameter>)
    ensures
        r.deep_view() == field_parameters(params.deep_view(), params@.len()),
{
    let ghost model = params.deep_view();
    let mut r = empty_parameters();
    for i in 0..params.len()
        invariant
            model == params.deep_view(),
            r.deep_view() == field_parameters(model, i as nat),
    {
        assert(model[i as int] == params@[i as int].deep_view());
        if params[i].1.has_jvm_value() {
            append_parameter(params[i].0.as_str(), false, &mut r);
        }
    }
    r
}

/// Makes the static method that calls an instance method on its first parameter.
pub fn create_static_instance_bridge(
    class_name: &str,
    method_name: &str,
    signature: &Signature,
) -> (r: JvmMethod)
    requires
        !signature.is_static,
        signature.params@.len() > 0,
        slots_before(
            receiver_params(class_name@, signature.deep_view().params),
            signature.params@.len(),
        ) <= u16::MAX,
    ensures
        r.deep_view() == instance_bridge(class_name@, method_name@, signature.deep_view()),
{
    let params = make_receiver_params(class_name, &signature.params);
    assert(params.deep_view().len() == params@.len());
    assert(signature.deep_view().params.len() == signature.params@.len());
    let bridge = static_signature(&params, &signature.ret);
    let mut ops = empty_ops();
    let slots = push_params(&params, false, &mut ops);
    push_op(
        make_invoke_virtual(
            &make_member(class_name, method_name, signature.to_descriptor().as_str()),
        ),
        &mut ops,
    );
    push_op(make_return(kind_of_type(&signature.ret)), &mut ops);
    let width = get_type_size(&signature.ret);
    make_method_with_parameters(
        PUBLIC_STATIC,
        method_name,
        bridge.to_descriptor().as_str(),
        if slots > width {
            slots
        } else {
            width
        },
        slots,
        ops,
        list_parameters(&params),
    )
}

/// The descriptor of a method without parameters.
pub open spec fn producing_descriptor(ty: TypeModel) -> Text {
    "()"@ + descriptor(ty)
}

/// The method that returns a constant, or the method that subclasses return one from.
pub open spec fn constant_method_file(
    name: Text,
    ty: TypeModel,
    value: Option<ConstantModel>,
) -> JvmMethodModel {
    match value {
        Some(constant) => method_with_ops(
            PUBLIC_FINAL,
            name,
            producing_descriptor(ty),
            larger(slot_width(constant_type(constant)), 1),
            1,
            op_pushed(
                op_return(kind_of(constant_type(constant))),
                op_pushed(op_push_constant(constant), no_ops()),
            ),
        ),
        None => JvmMethodModel {
            access: PUBLIC_ABSTRACT,
            name,
            descriptor: producing_descriptor(ty),
            body: MethodBodyModel::Abstract,
            parameters: None,
        },
    }
}

/// Makes the method that returns a constant, or the method that subclasses return one from.
pub fn create_constant_method(name: &str, ty: &Type, value: &Option<Constant>) -> (r: JvmMethod)
    ensures
        r.deep_view() == constant_method_file(name@, ty.deep_view(), value.deep_view()),
{
    let descriptor = cat2("()", ty.to_jvm_descriptor().as_str());
    match value {
        Some(constant) => {
            let constant_ty = constant_operand(constant).get_type();
            let width = get_type_size(&constant_ty);
            let mut ops = empty_ops();
            push_op(make_push_constant(constant), &mut ops);
            push_op(make_return(kind_of_type(&constant_ty)), &mut ops);
            make_method(
                PUBLIC_FINAL,
                name,
                descriptor.as_str(),
                if width > 1 {
                    width
                } else {
                    1
                },
                1,
                ops,
            )
        },
        None => JvmMethod {
            access: PUBLIC_ABSTRACT,
            name: name.to_string(),
            descriptor,
            body: MethodBody::Abstract,
            parameters: None,
        },
    }
}

} // verus!
