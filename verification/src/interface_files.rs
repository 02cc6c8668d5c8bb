//! The class files of interfaces.
use crate::bridges::{can_be_relative, relative_signature};
use crate::class_methods::{
    RELATIVE_POINTER_METHOD_SUFFIX, capped_sum, join_descriptors, larger, local_behind,
    local_plus, relative_fields_are_larger, relative_slots, relative_slots_grow, slots_before,
};
use crate::code::static_signature;
use crate::codec::{is_pointer, is_pointer_type};
use crate::descriptor::{OBJECT_CLASS, POINTER_CLASS, descriptor, parameter_descriptors};
use crate::error::{Error, ErrorModel};
use crate::jvm_ops::{
    ClassFile, ClassFileModel, JvmField, JvmFieldModel, JvmMethod, JvmMethodModel, Kind,
    MethodBody, MethodBodyModel, Op, OpModel, PUBLIC, PUBLIC_ABSTRACT, PUBLIC_INTERFACE,
    PUBLIC_STATIC_ABSTRACT, append_method, empty_jvm_methods, empty_ops, get_type_size, kind_of,
    kind_of_type, make_invoke_interface, make_invoke_static, make_load, make_member, make_method,
    make_plain_class, make_return, member, method_with_ops, no_jvm_methods, no_ops,
    op_invoke_interface, op_invoke_static, op_load, op_pushed, op_return, plain_class, push_op,
    slot_width,
};
use crate::name_map::NameMap;
use crate::oomir::{Signature, SignatureModel, Text, TypeModel, has_value};
use crate::text::{cat2, cat4, same, starts_with_text, strip_prefix};
use vstd::prelude::*;
use vstd::string::*;

verus! {

/// What the names of the interfaces of function values start with.
pub const FN_PTR_PREFIX: &'static str = "org/rustlang/runtime/FnPtr_";

/// The descriptor of a method of an interface: all parameters of its signature stand in it.
pub open spec fn full_descriptor(signature: SignatureModel) -> Text {
    "("@ + parameter_descriptors(signature.params) + ")"@ + descriptor(signature.ret)
}

fn full_descriptor_of(signature: &Signature) -> (r: String)
    ensures
        r@ == full_descriptor(signature.deep_view()),
{
    cat4(
        "(",
        join_descriptors(&signature.params).as_str(),
        ")",
        signature.ret.to_jvm_descriptor().as_str(),
    )
}

/// The method of an interface that a signature stands for.
pub open spec fn abstract_method(name: Text, signature: SignatureModel) -> JvmMethodModel {
    JvmMethodModel {
        access: if signature.is_static {
            PUBLIC_STATIC_ABSTRACT
        } else {
            PUBLIC_ABSTRACT
        },
        name,
        descriptor: full_descriptor(signature),
        body: MethodBodyModel::Abstract,
        parameters: None,
    }
}

fn create_abstract_method(name: &str, signature: &Signature) -> (r: JvmMethod)
    ensures
        r.deep_view() == abstract_method(name@, signature.deep_view()),
{
    JvmMethod {
        access: if signature.is_static {
            PUBLIC_STATIC_ABSTRACT
        } else {
            PUBLIC_ABSTRACT
        },
        name: name.to_string(),
        descriptor: full_descriptor_of(signature),
        body: MethodBody::Abstract,
        parameters: None,
    }
}

/// A signature whose parameters are all explicit.
pub open spec fn explicit(signature: SignatureModel) -> SignatureModel {
    SignatureModel { params: signature.params, ret: signature.ret, is_static: true }
}

/// The code that settles a pointer with its offsets.
#[verifier::opaque]
pub open spec fn pointer_settled(local: u16, ops: Seq<OpModel>) -> Seq<OpModel> {
    let ops = op_pushed(op_load(Kind::Reference, local), ops);
    let ops = op_pushed(op_load(Kind::Long, local_plus(local, 1)), ops);
    let ops = op_pushed(op_load(Kind::Long, local_plus(local, 3)), ops);
    let ops = op_pushed(
        op_invoke_static(
            member(
                POINTER_CLASS@,
                "materializeRelative"@,
                "(Lorg/rustlang/runtime/Pointer;JJ)Lorg/rustlang/runtime/Pointer;"@,
            ),
        ),
        ops,
    );
    ops
}

/// Settles a pointer with its offsets.
pub fn emit_settled_pointer(local: u16, ops: &mut Vec<Op>)
    ensures
        final(ops).deep_view() == pointer_settled(local, old(ops).deep_view()),
{
    proof {
        reveal(pointer_settled);
    }
    push_op(make_load(Kind::Reference, local), ops);
    push_op(make_load(Kind::Long, local_behind(local, 1)), ops);
    push_op(make_load(Kind::Long, local_behind(local, 3)), ops);
    push_op(
        make_invoke_static(
            &make_member(
                POINTER_CLASS,
                "materializeRelative",
                "(Lorg/rustlang/runtime/Pointer;JJ)Lorg/rustlang/runtime/Pointer;",
            ),
        ),
        ops,
    );
}

/// The code that pushes the first parameters, with pointers settled.
pub open spec fn settled_params(
    params: Seq<(Text, TypeModel)>,
    n: nat,
    ops: Seq<OpModel>,
) -> Seq<OpModel>
    decreases n,
{
    if n == 0 || n > params.len() {
        ops
    } else {
        let ops = settled_params(params, (n - 1) as nat, ops);
        let ty = params[n - 1].1;
        let local = (1 + relative_slots(params, (n - 1) as nat)) as u16;
        if is_pointer(ty) {
            pointer_settled(local, ops)
        } else if has_value(ty) {
            op_pushed(op_load(kind_of(ty), local), ops)
        } else {
            ops
        }
    }
}

/// The deepest stack that pushing the first parameters takes.
pub open spec fn settled_stack(params: Seq<(Text, TypeModel)>, n: nat) -> u16
    decreases n,
{
    if n == 0 || n > params.len() {
        1
    } else {
        let before = settled_stack(params, (n - 1) as nat);
        let stack = (1 + slots_before(params, (n - 1) as nat)) as u16;
        let ty = params[n - 1].1;
        if is_pointer(ty) {
            larger(before, capped_sum(stack, 5))
        } else if has_value(ty) {
            larger(before, (stack + slot_width(ty)) as u16)
        } else {
            before
        }
    }
}

/// The slots that the receiver and the parameters of a call take.
pub open spec fn call_slots(signature: SignatureModel) -> nat {
    1 + slots_before(signature.params, signature.params.len())
}

/// The method of the interface of a function value that takes pointers with offsets and calls the
/// function with the pointers settled.
pub open spec fn settling_method(
    interface_name: Text,
    signature: SignatureModel,
) -> JvmMethodModel {
    let params = signature.params;
    method_with_ops(
        PUBLIC,
        "call"@ + RELATIVE_POINTER_METHOD_SUFFIX@,
        full_descriptor(relative_signature(signature)),
        larger(settled_stack(params, params.len()), slot_width(signature.ret)),
        (1 + relative_slots(params, params.len())) as u16,
        op_pushed(
            op_return(kind_of(signature.ret)),
            op_pushed(
                op_invoke_interface(
                    member(interface_name, "call"@, full_descriptor(signature)),
                    call_slots(signature) as u8,
                ),
                settled_params(
                    params,
                    params.len(),
                    op_pushed(op_load(Kind::Reference, 0), no_ops()),
                ),
            ),
        ),
    )
}

/// Whether an interface has a method that takes pointers with offsets beside one of its methods.
pub open spec fn has_settling_method(
    interface_name: Text,
    name: Text,
    signature: SignatureModel,
) -> bool {
    name == "call"@ && starts_with_text(interface_name, FN_PTR_PREFIX@) && can_be_relative(
        explicit(signature),
    )
}

fn create_settling_method(interface_name: &str, signature: &Signature, slots: u8) -> (r: JvmMethod)
    requires
        1 + relative_slots(signature.deep_view().params, signature.params@.len()) <= u16::MAX,
        slots == call_slots(signature.deep_view()),
    ensures
        r.deep_view() == settling_method(interface_name@, signature.deep_view()),
{
    let params = &signature.params;
    let ghost model = params.deep_view();
    assert(model.len() == params@.len());
    let mut ops = empty_ops();
    push_op(make_load(Kind::Reference, 0), &mut ops);
    let ghost start = ops.deep_view();
    let mut local: u16 = 1;
    let mut stack: u16 = 1;
    let mut max_stack: u16 = 1;
    for i in 0..params.len()
        invariant
            model == params.deep_view(),
            model.len() == params@.len(),
            1 + relative_slots(model, model.len()) <= u16::MAX,
            local == 1 + relative_slots(model, i as nat),
            stack == 1 + slots_before(model, i as nat),
            max_stack == settled_stack(model, i as nat),
            ops.deep_view() == settled_params(model, i as nat, start),
    {
        assert(model[i as int] == params@[i as int].deep_view());
        proof {
            relative_slots_grow(model, (i + 1) as nat, model.len());
            relative_fields_are_larger(model, (i + 1) as nat);
        }
        let ty = &params[i].1;
        if is_pointer_type(ty) {
            emit_settled_pointer(local, &mut ops);
            let settled: u16 = if stack > u16::MAX - 5 {
                u16::MAX
            } else {
                stack + 5
            };
            if settled > max_stack {
                max_stack = settled;
            }
            local = local + 5;
            stack = stack + 1;
        } else {
            let size = get_type_size(ty);
            if ty.has_jvm_value() {
                push_op(make_load(kind_of_type(ty), local), &mut ops);
            }
            local = local + size;
            stack = stack + size;
            if ty.has_jvm_value() && stack > max_stack {
                max_stack = stack;
            }
        }
    }
    push_op(
        make_invoke_interface(
            &make_member(interface_name, "call", full_descriptor_of(signature).as_str()),
            slots,
        ),
        &mut ops,
    );
    push_op(make_return(kind_of_type(&signature.ret)), &mut ops);
    let width = get_type_size(&signature.ret);
    let relative = signature.relative_pointer_abi_signature();
    make_method(
        PUBLIC,
        cat2("call", RELATIVE_POINTER_METHOD_SUFFIX).as_str(),
        full_descriptor_of(&relative).as_str(),
        if max_stack > width {
            max_stack
        } else {
            width
        },
        local,
        ops,
    )
}

/// The error of a call that takes more parameters than the JVM allows.
pub open spec fn too_many_slots(interface_name: Text) -> ErrorModel {
    Error::VerificationError {
        context: "Relative function-pointer bridge "@ + interface_name,
        message: "interface call exceeds 255 JVM parameter slots"@,
    }
}

/// The methods of the class file of an interface for its first methods, or why there is none.
pub open spec fn interface_methods_listed(
    interface_name: Text,
    names: Seq<Text>,
    methods: Map<Text, SignatureModel>,
    n: nat,
) -> Result<Seq<JvmMethodModel>, ErrorModel>
    decreases n,
{
    if n == 0 || n > names.len() {
        Ok(no_jvm_methods())
    } else {
        match interface_methods_listed(interface_name, names, methods, (n - 1) as nat) {
            Err(error) => Err(error),
            Ok(before) => {
                let name = names[n - 1];
                let signature = methods[name];
                let own = before.push(abstract_method(name, signature));
                if has_settling_method(interface_name, name, signature) {
                    if call_slots(signature) > 255 {
                        Err(too_many_slots(interface_name))
                    } else {
                        Ok(own.push(settling_method(interface_name, explicit(signature))))
                    }
                } else {
                    Ok(own)
                }
            },
        }
    }
}

/// An interface that has no class file for its first methods has none for more.
pub proof fn failed_interfaces_stay_failed(
    interface_name: Text,
    names: Seq<Text>,
    methods: Map<Text, SignatureModel>,
    n: nat,
    m: nat,
)
    requires
        n <= m <= names.len(),
        interface_methods_listed(interface_name, names, methods, n) is Err,
    ensures
        interface_methods_listed(interface_name, names, methods, m)
            == interface_methods_listed(interface_name, names, methods, n),
    decreases m,
{
    if n < m {
        failed_interfaces_stay_failed(interface_name, names, methods, n, (m - 1) as nat);
    }
}

/// The class file of an interface, or why there is none.
pub open spec fn interface_file(
    interface_name: Text,
    names: Seq<Text>,
    methods: Map<Text, SignatureModel>,
) -> Result<ClassFileModel, ErrorModel> {
    match interface_methods_listed(interface_name, names, methods, names.len()) {
        Ok(listed) => Ok(
            plain_class(PUBLIC_INTERFACE, interface_name, OBJECT_CLASS@, Seq::empty(), listed),
        ),
        Err(error) => Err(error),
    }
}

fn count_call_slots(signature: &Signature) -> (r: u16)
    requires
        1 + relative_slots(signature.deep_view().params, signature.params@.len()) <= u16::MAX,
    ensures
        r == call_slots(signature.deep_view()),
{
    let ghost model = signature.deep_view().params;
    assert(model.len() == signature.params@.len());
    let mut slots: u16 = 1;
    for i in 0..signature.params.len()
        invariant
            model == signature.deep_view().params,
            model.len() == signature.params@.len(),
            1 + relative_slots(model, model.len()) <= u16::MAX,
            slots == 1 + slots_before(model, i as nat),
    {
        assert(model[i as int] == signature.params@[i as int].deep_view());
        proof {
            relative_slots_grow(model, (i + 1) as nat, model.len());
            relative_fields_are_larger(model, (i + 1) as nat);
        }
        slots = slots + get_type_size(&signature.params[i].1);
    }
    slots
}

/// Whether the slots of each call that gets a settling method can be counted in sixteen bits.
pub open spec fn calls_can_be_counted(
    interface_name: Text,
    methods: Map<Text, SignatureModel>,
) -> bool {
    forall|k: Text| #[trigger]
        methods.dom().contains(k) && has_settling_method(interface_name, k, methods[k]) ==> 1
            + relative_slots(methods[k].params, methods[k].params.len()) <= u16::MAX
}

/// Makes the class file of an interface.
pub fn create_data_type_classfile_for_interface(
    interface_name: &str,
    methods: &NameMap<Signature>,
) -> (r: Result<ClassFile, Error>)
    requires
        calls_can_be_counted(interface_name@, methods.deep_view()),
    ensures
        (match r {
            Ok(file) => Ok(file.deep_view()),
            Err(error) => Err(error.deep_view()),
        }) == interface_file(interface_name@, methods.keys(), methods.deep_view()),
{
    let mut jvm_methods = empty_jvm_methods();
    methods.check();
    let count: usize = methods.len();
    for i in 0..count
        invariant
            methods.consistent(),
            count == methods.keys().len(),
            calls_can_be_counted(interface_name@, methods.deep_view()),
            interface_methods_listed(
                interface_name@,
                methods.keys(),
                methods.deep_view(),
                i as nat,
            ) == Ok::<Seq<JvmMethodModel>, ErrorModel>(jvm_methods.deep_view()),
    {
        let ghost key = methods.keys()[i as int];
        assert(methods.deep_view().dom().contains(key));
        assert(methods.deep_view()[key] == methods.values()[i as int].deep_view());
        let name = methods.key_at(i).as_str();
        let signature = methods.value_at(i);
        assert(signature.deep_view().params.len() == signature.params@.len());
        append_method(create_abstract_method(name, signature), &mut jvm_methods);
        if same(name, "call") && strip_prefix(interface_name, FN_PTR_PREFIX).is_some() {
            let explicit_signature = static_signature(&signature.params, &signature.ret);
            assert(explicit_signature.deep_view() == explicit(signature.deep_view()));
            if explicit_signature.supports_relative_pointer_abi() {
                assert(explicit_signature.deep_view().params.len()
                    == explicit_signature.params@.len());
                let slots = count_call_slots(&explicit_signature);
                if slots > 255 {
                    proof {
                        failed_interfaces_stay_failed(
                            interface_name@,
                            methods.keys(),
                            methods.deep_view(),
                            (i + 1) as nat,
                            count as nat,
                        );
                    }
                    return Err(
                        Error::VerificationError {
                            context: cat2("Relative function-pointer bridge ", interface_name),
                            message: "interface call exceeds 255 JVM parameter slots".to_string(),
                        },
                    );
                }
                append_method(
                    create_settling_method(interface_name, &explicit_signature, slots as u8),
                    &mut jvm_methods,
                );
            }
        }
    }
    let fields: Vec<JvmField> = Vec::new();
    assert(fields.deep_view() =~= Seq::<JvmFieldModel>::empty());
    Ok(make_plain_class(PUBLIC_INTERFACE, interface_name, OBJECT_CLASS, fields, jvm_methods))
}

} // verus!
