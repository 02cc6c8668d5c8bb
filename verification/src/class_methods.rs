//! The methods that generated classes have: constructors, copies, bridges and comparisons.
use crate::codec::{is_pointer, is_pointer_type};
use crate::descriptor::{POINTER_CLASS, descriptor, is_reference, parameter_descriptors};
use crate::jvm_ops::{
    JvmMethod, JvmMethodModel, Kind, MethodParameterModel, Op, OpModel, PUBLIC, PUBLIC_FINAL,
    PUBLIC_FINAL_SYNTHETIC, PUBLIC_SYNTHETIC, append_method, append_parameter, empty_ops,
    empty_parameters, get_type_size, kind_of, kind_of_type, make_cast, make_dup, make_get_field,
    make_invoke_special, make_invoke_static, make_load, make_member, make_method,
    make_method_with_parameters, make_new, make_put_field, make_return, member, method_appended,
    method_with_ops, method_with_parameters, no_ops, no_parameters, op_cast, op_dup, op_get_field,
    op_invoke_special, op_invoke_static, op_load, op_new, op_pushed, op_put_field, op_return,
    parameter_appended, push_op, slot_width,
};
use crate::oomir::{Text, Type, TypeModel, has_value};
use crate::text::{cat2, cat3};
use vstd::prelude::*;
use vstd::string::*;

verus! {

/// What the name of a method ends with if its pointers come with offsets.
pub const RELATIVE_POINTER_METHOD_SUFFIX: &'static str = "$relative";

/// The interface of objects that know the memory that they are a view of.
pub const MEMORY_VIEW_ORIGIN_CARRIER: &'static str = "org/rustlang/runtime/MemoryViewOriginCarrier";

/// The field that holds the memory that an object is a view of.
pub const MEMORY_VIEW_ORIGIN_FIELD: &'static str = "$rcj$memoryViewOrigin";

/// The interface of objects that can be copied.
pub const RUST_COPY_INTERFACE: &'static str = "org/rustlang/runtime/RustCopy";

/// The field beside a pointer that counts the elements which it is off.
pub open spec fn element_offset_field(name: Text) -> Text {
    name + "$elementOffset"@
}

/// The field beside a pointer that counts the elements which it is off.
pub fn relative_pointer_element_offset_field(name: &str) -> (r: String)
    ensures
        r@ == element_offset_field(name@),
{
    cat2(name, "$elementOffset")
}

/// The field beside a pointer that counts the bytes which it is off.
pub open spec fn byte_offset_field(name: Text) -> Text {
    name + "$byteOffset"@
}

/// The field beside a pointer that counts the bytes which it is off.
pub fn relative_pointer_byte_offset_field(name: &str) -> (r: String)
    ensures
        r@ == byte_offset_field(name@),
{
    cat2(name, "$byteOffset")
}

/// The slots that the first fields take as parameters.
pub open spec fn slots_before(fields: Seq<(Text, TypeModel)>, n: nat) -> nat
    decreases n,
{
    if n == 0 || n > fields.len() {
        0
    } else {
        slots_before(fields, (n - 1) as nat) + slot_width(fields[n - 1].1) as nat
    }
}

/// More fields take more slots.
pub proof fn slots_grow(fields: Seq<(Text, TypeModel)>, n: nat, m: nat)
    requires
        n <= m <= fields.len(),
    ensures
        slots_before(fields, n) <= slots_before(fields, m),
    decreases m,
{
    if n < m {
        slots_grow(fields, n, (m - 1) as nat);
    }
}

/// Whether the fields fit the local variables of a constructor.
pub open spec fn fields_fit(fields: Seq<(Text, TypeModel)>) -> bool {
    1 + slots_before(fields, fields.len()) <= u16::MAX
}

/// The code that starts every constructor: that of the superclass.
#[verifier::opaque]
pub open spec fn super_called(super_class: Text, ops: Seq<OpModel>) -> Seq<OpModel> {
    let ops = op_pushed(op_load(Kind::Reference, 0), ops);
    let ops = op_pushed(op_invoke_special(member(super_class, "<init>"@, "()V"@)), ops);
    ops
}

/// Calls the constructor of the superclass.
pub fn emit_super_call(super_class: &str, ops: &mut Vec<Op>)
    ensures
        final(ops).deep_view() == super_called(super_class@, old(ops).deep_view()),
{
    proof {
        reveal(super_called);
    }
    push_op(make_load(Kind::Reference, 0), ops);
    push_op(make_invoke_special(&make_member(super_class, "<init>", "()V")), ops);
}

/// The constructor without parameters.
#[verifier::opaque]
pub open spec fn default_constructor(super_class: Text) -> JvmMethodModel {
    let ops = no_ops();
    let ops = super_called(super_class, ops);
    let ops = op_pushed(op_return(Kind::Nothing), ops);
    method_with_ops(PUBLIC, "<init>"@, "()V"@, 1, 1, ops)
}

/// Makes the constructor without parameters.
pub fn create_default_constructor(super_class: &str) -> (r: JvmMethod)
    ensures
        r.deep_view() == default_constructor(super_class@),
{
    proof {
        reveal(default_constructor);
    }
    let mut ops = empty_ops();
    emit_super_call(super_class, &mut ops);
    push_op(make_return(Kind::Nothing), &mut ops);
    make_method(PUBLIC, "<init>", "()V", 1, 1, ops)
}

/// The code that sets a field to a parameter.
#[verifier::opaque]
pub open spec fn field_put(
    class_name: Text,
    field_name: Text,
    field_ty: TypeModel,
    local: u16,
    ops: Seq<OpModel>,
) -> Seq<OpModel> {
    let ops = op_pushed(op_load(Kind::Reference, 0), ops);
    let ops = op_pushed(op_load(kind_of(field_ty), local), ops);
    let ops = op_pushed(op_put_field(member(class_name, field_name, (descriptor(field_ty)))), ops);
    ops
}

/// Sets a field to a parameter.
pub fn emit_field_put(
    class_name: &str,
    field_name: &str,
    field_ty: &Type,
    local: u16,
    ops: &mut Vec<Op>,
)
    ensures
        final(ops).deep_view() == field_put(
            class_name@,
            field_name@,
            field_ty.deep_view(),
            local,
            old(ops).deep_view(),
        ),
{
    proof {
        reveal(field_put);
    }
    push_op(make_load(Kind::Reference, 0), ops);
    push_op(make_load(kind_of_type(field_ty), local), ops);
    push_op(
        make_put_field(
            &make_member(class_name, field_name, Type::to_jvm_descriptor(field_ty).as_str()),
        ),
        ops,
    );
}

/// The code that sets the first fields to parameters; fields without JVM value are left out.
pub open spec fn field_puts(
    class_name: Text,
    fields: Seq<(Text, TypeModel)>,
    n: nat,
    ops: Seq<OpModel>,
) -> Seq<OpModel>
    decreases n,
{
    if n == 0 || n > fields.len() {
        ops
    } else {
        let ops = field_puts(class_name, fields, (n - 1) as nat, ops);
        let field = fields[n - 1];
        if has_value(field.1) {
            field_put(
                class_name,
                field.0,
                field.1,
                (1 + slots_before(fields, (n - 1) as nat)) as u16,
                ops,
            )
        } else {
            ops
        }
    }
}

/// The deepest stack that setting the first fields takes.
pub open spec fn field_stack(fields: Seq<(Text, TypeModel)>, n: nat) -> u16
    decreases n,
{
    if n == 0 || n > fields.len() {
        1
    } else {
        let before = field_stack(fields, (n - 1) as nat);
        let own = if has_value(fields[n - 1].1) {
            (1 + slot_width(fields[n - 1].1)) as u16
        } else {
            1
        };
        if own > before {
            own
        } else {
            before
        }
    }
}

/// The parameters that the first fields are set to.
pub open spec fn field_parameters(fields: Seq<(Text, TypeModel)>, n: nat) -> Seq<
    MethodParameterModel,
>
    decreases n,
{
    if n == 0 || n > fields.len() {
        no_parameters()
    } else {
        let before = field_parameters(fields, (n - 1) as nat);
        if has_value(fields[n - 1].1) {
            parameter_appended(fields[n - 1].0, false, before)
        } else {
            before
        }
    }
}

/// The descriptor of a method without result.
pub open spec fn setting_descriptor(fields: Seq<(Text, TypeModel)>) -> Text {
    "("@ + parameter_descriptors(fields) + ")V"@
}

/// The descriptors of the fields that have a JVM value, one behind the other.
pub fn join_descriptors(fields: &Vec<(String, Type)>) -> (r: String)
    ensures
        r@ == parameter_descriptors(fields.deep_view()),
{
    let ghost model = fields.deep_view();
    let mut r = "".to_string();
    proof {
        reveal_strlit("");
        assert(r@ =~= parameter_descriptors(model.take(0)));
    }
    for i in 0..fields.len()
        invariant
            model == fields.deep_view(),
            r@ == parameter_descriptors(model.take(i as int)),
    {
        assert(model.take(i + 1).drop_last() =~= model.take(i as int));
        assert(model.take(i + 1).last() == fields@[i as int].deep_view());
        if fields[i].1.has_jvm_value() {
            r = cat2(r.as_str(), fields[i].1.to_jvm_descriptor().as_str());
        }
    }
    assert(model.take(fields@.len() as int) =~= model);
    r
}

/// The constructor that sets all fields.
pub open spec fn field_constructor(
    this_class: Text,
    super_class: Text,
    fields: Seq<(Text, TypeModel)>,
) -> JvmMethodModel {
    method_with_parameters(
        PUBLIC,
        "<init>"@,
        setting_descriptor(fields),
        field_stack(fields, fields.len()),
        (1 + slots_before(fields, fields.len())) as u16,
        op_pushed(
            op_return(Kind::Nothing),
            field_puts(this_class, fields, fields.len(), super_called(super_class, no_ops())),
        ),
        field_parameters(fields, fields.len()),
    )
}

/// Makes the constructor that sets all fields.
pub fn create_field_constructor(
    this_class: &str,
    super_class: &str,
    fields: &Vec<(String, Type)>,
) -> (r: JvmMethod)
    requires
        fields_fit(fields.deep_view()),
    ensures
        r.deep_view() == field_constructor(this_class@, super_class@, fields.deep_view()),
{
    let ghost model = fields.deep_view();
    let descriptor = cat3("(", join_descriptors(fields).as_str(), ")V");
    let mut ops = empty_ops();
    emit_super_call(super_class, &mut ops);
    let ghost start = ops.deep_view();
    let mut parameters = empty_parameters();
    let mut next_local: u16 = 1;
    let mut max_stack: u16 = 1;
    for i in 0..fields.len()
        invariant
            model == fields.deep_view(),
            fields_fit(model),
            next_local == 1 + slots_before(model, i as nat),
            max_stack == field_stack(model, i as nat),
            ops.deep_view() == field_puts(this_class@, model, i as nat, start),
            parameters.deep_view() == field_parameters(model, i as nat),
    {
        assert(model[i as int] == fields@[i as int].deep_view());
        proof {
            slots_grow(model, (i + 1) as nat, model.len());
        }
        let ty = &fields[i].1;
        let size = get_type_size(ty);
        if ty.has_jvm_value() {
            emit_field_put(this_class, fields[i].0.as_str(), ty, next_local, &mut ops);
            append_parameter(fields[i].0.as_str(), false, &mut parameters);
            if 1 + size > max_stack {
                max_stack = 1 + size;
            }
        }
        next_local = next_local + size;
    }
    push_op(make_return(Kind::Nothing), &mut ops);
    make_method_with_parameters(
        PUBLIC,
        "<init>",
        descriptor.as_str(),
        max_stack,
        next_local,
        ops,
        parameters,
    )
}

/// The slots that the first fields take as parameters if pointers come with offsets.
pub open spec fn relative_slots(fields: Seq<(Text, TypeModel)>, n: nat) -> nat
    decreases n,
{
    if n == 0 || n > fields.len() {
        0
    } else {
        relative_slots(fields, (n - 1) as nat) + slot_width(fields[n - 1].1) as nat + (
        if is_pointer(fields[n - 1].1) {
            4nat
        } else {
            0
        })
    }
}

/// More fields take more slots, also if pointers come with offsets.
pub proof fn relative_slots_grow(fields: Seq<(Text, TypeModel)>, n: nat, m: nat)
    requires
        n <= m <= fields.len(),
    ensures
        relative_slots(fields, n) <= relative_slots(fields, m),
    decreases m,
{
    if n < m {
        relative_slots_grow(fields, n, (m - 1) as nat);
    }
}

/// Whether the fields fit the local variables of a constructor if pointers come with offsets.
pub open spec fn relative_fields_fit(fields: Seq<(Text, TypeModel)>) -> bool {
    1 + relative_slots(fields, fields.len()) <= u16::MAX
}

/// Fields that fit with offsets also fit without.
pub proof fn relative_fields_are_larger(fields: Seq<(Text, TypeModel)>, n: nat)
    ensures
        slots_before(fields, n) <= relative_slots(fields, n),
    decreases n,
{
    if n > 0 && n <= fields.len() {
        relative_fields_are_larger(fields, (n - 1) as nat);
    }
}

/// The code that sets a pointer and its two offsets to parameters.
#[verifier::opaque]
pub open spec fn pointer_put(
    class_name: Text,
    field_name: Text,
    field_ty: TypeModel,
    local: u16,
    ops: Seq<OpModel>,
) -> Seq<OpModel> {
    let ops = field_put(class_name, field_name, field_ty, local, ops);
    let ops = field_put(
        class_name,
        (element_offset_field(field_name)),
        Type::I64,
        local_plus(local, 1),
        ops,
    );
    let ops = field_put(
        class_name,
        (byte_offset_field(field_name)),
        Type::I64,
        local_plus(local, 3),
        ops,
    );
    ops
}

/// Sets a pointer and its two offsets to parameters.
pub fn emit_pointer_put(
    class_name: &str,
    field_name: &str,
    field_ty: &Type,
    local: u16,
    ops: &mut Vec<Op>,
)
    ensures
        final(ops).deep_view() == pointer_put(
            class_name@,
            field_name@,
            field_ty.deep_view(),
            local,
            old(ops).deep_view(),
        ),
{
    proof {
        reveal(pointer_put);
    }
    emit_field_put(class_name, field_name, field_ty, local, ops);
    emit_field_put(
        class_name,
        relative_pointer_element_offset_field(field_name).as_str(),
        &Type::I64,
        local_behind(local, 1),
        ops,
    );
    emit_field_put(
        class_name,
        relative_pointer_byte_offset_field(field_name).as_str(),
        &Type::I64,
        local_behind(local, 3),
        ops,
    );
}

/// A local variable behind another.
pub open spec fn local_plus(local: u16, slots: u16) -> u16 {
    (local + slots) as u16
}

/// A local variable behind another.
pub fn local_behind(local: u16, slots: u16) -> (r: u16)
    ensures
        r == local_plus(local, slots),
{
    ((local as u32) + (slots as u32)) as u16
}

/// The code that sets the first fields to parameters if pointers come with offsets.
pub open spec fn relative_puts(
    class_name: Text,
    fields: Seq<(Text, TypeModel)>,
    n: nat,
    ops: Seq<OpModel>,
) -> Seq<OpModel>
    decreases n,
{
    if n == 0 || n > fields.len() {
        ops
    } else {
        let ops = relative_puts(class_name, fields, (n - 1) as nat, ops);
        let field = fields[n - 1];
        let local = (1 + relative_slots(fields, (n - 1) as nat)) as u16;
        if is_pointer(field.1) {
            pointer_put(class_name, field.0, field.1, local, ops)
        } else {
            field_put(class_name, field.0, field.1, local, ops)
        }
    }
}

/// The parameters that the first fields are set to if pointers come with offsets.
pub open spec fn relative_parameters(fields: Seq<(Text, TypeModel)>, n: nat) -> Seq<
    MethodParameterModel,
>
    decreases n,
{
    if n == 0 || n > fields.len() {
        no_parameters()
    } else {
        let name = fields[n - 1].0;
        let own = parameter_appended(
            name,
            false,
            relative_parameters(fields, (n - 1) as nat),
        );
        if is_pointer(fields[n - 1].1) {
            parameter_appended(
                byte_offset_field(name),
                true,
                parameter_appended(element_offset_field(name), true, own),
            )
        } else {
            own
        }
    }
}

/// The descriptors of the first fields if pointers come with offsets.
pub open spec fn relative_descriptors(fields: Seq<(Text, TypeModel)>, n: nat) -> Text
    decreases n,
{
    if n == 0 || n > fields.len() {
        ""@
    } else {
        let before = relative_descriptors(fields, (n - 1) as nat);
        if is_pointer(fields[n - 1].1) {
            before + descriptor(fields[n - 1].1) + "JJ"@
        } else {
            before + descriptor(fields[n - 1].1)
        }
    }
}

/// The constructor that sets all fields, with offsets beside pointers.
pub open spec fn relative_constructor(
    this_class: Text,
    super_class: Text,
    fields: Seq<(Text, TypeModel)>,
) -> JvmMethodModel {
    method_with_parameters(
        PUBLIC_SYNTHETIC,
        "<init>"@,
        "("@ + relative_descriptors(fields, fields.len()) + ")V"@,
        3,
        (1 + relative_slots(fields, fields.len())) as u16,
        op_pushed(
            op_return(Kind::Nothing),
            relative_puts(this_class, fields, fields.len(), super_called(super_class, no_ops())),
        ),
        relative_parameters(fields, fields.len()),
    )
}

/// Makes the constructor that sets all fields, with offsets beside pointers.
pub fn create_relative_pointer_field_constructor(
    this_class: &str,
    super_class: &str,
    fields: &Vec<(String, Type)>,
) -> (r: JvmMethod)
    requires
        relative_fields_fit(fields.deep_view()),
    ensures
        r.deep_view() == relative_constructor(this_class@, super_class@, fields.deep_view()),
{
    let ghost model = fields.deep_view();
    let mut descriptors = "".to_string();
    let mut ops = empty_ops();
    emit_super_call(super_class, &mut ops);
    let ghost start = ops.deep_view();
    let mut parameters = empty_parameters();
    let mut next_local: u16 = 1;
    for i in 0..fields.len()
        invariant
            model == fields.deep_view(),
            relative_fields_fit(model),
            next_local == 1 + relative_slots(model, i as nat),
            descriptors@ == relative_descriptors(model, i as nat),
            ops.deep_view() == relative_puts(this_class@, model, i as nat, start),
            parameters.deep_view() == relative_parameters(model, i as nat),
    {
        assert(model[i as int] == fields@[i as int].deep_view());
        proof {
            relative_slots_grow(model, (i + 1) as nat, model.len());
        }
        let name = fields[i].0.as_str();
        let ty = &fields[i].1;
        let size = get_type_size(ty);
        append_parameter(name, false, &mut parameters);
        descriptors = cat2(descriptors.as_str(), ty.to_jvm_descriptor().as_str());
        if is_pointer_type(ty) {
            emit_pointer_put(this_class, name, ty, next_local, &mut ops);
            append_parameter(
                relative_pointer_element_offset_field(name).as_str(),
                true,
                &mut parameters,
            );
            append_parameter(
                relative_pointer_byte_offset_field(name).as_str(),
                true,
                &mut parameters,
            );
            descriptors = cat2(descriptors.as_str(), "JJ");
            next_local = next_local + size + 4;
        } else {
            emit_field_put(this_class, name, ty, next_local, &mut ops);
            next_local = next_local + size;
        }
    }
    push_op(make_return(Kind::Nothing), &mut ops);
    make_method_with_parameters(
        PUBLIC_SYNTHETIC,
        "<init>",
        cat3("(", descriptors.as_str(), ")V").as_str(),
        3,
        next_local,
        ops,
        parameters,
    )
}

/// The code that copies a field: pointers are settled, other objects are copied through the
/// runtime,
/// and numbers are taken as they are.
#[verifier::opaque]
pub open spec fn field_copied(
    class_name: Text,
    field_name: Text,
    field_ty: TypeModel,
    ops: Seq<OpModel>,
) -> Seq<OpModel> {
    let ops = op_pushed(op_load(Kind::Reference, 0), ops);
    let ops = op_pushed(op_get_field(member(class_name, field_name, (descriptor(field_ty)))), ops);
    if is_pointer(field_ty) {
        let ops = op_pushed(op_load(Kind::Reference, 0), ops);
        let ops = op_pushed(
            op_get_field(member(class_name, (element_offset_field(field_name)), "J"@)),
            ops,
        );
        let ops = op_pushed(op_load(Kind::Reference, 0), ops);
        let ops = op_pushed(
            op_get_field(member(class_name, (byte_offset_field(field_name)), "J"@)),
            ops,
        );
        let ops = op_pushed(
            op_invoke_static(
                member(
                    POINTER_CLASS@,
                    "materializeRelative"@,
                    "(Lorg/rustlang/runtime/Pointer;JJ)Lorg/rustlang/runtime/Pointer;"@,
                ),
            ),
            ops,
        );
        ops
    } else if is_reference(field_ty) {
        let ops = op_pushed(
            op_invoke_static(
                member(
                    POINTER_CLASS@,
                    "copyManagedValue"@,
                    "(Ljava/lang/Object;)Ljava/lang/Object;"@,
                ),
            ),
            ops,
        );
        let ops = op_pushed(op_cast(field_ty), ops);
        ops
    } else {
        ops
    }
}

/// Copies a field.
pub fn emit_field_copy(class_name: &str, field_name: &str, field_ty: &Type, ops: &mut Vec<Op>)
    ensures
        final(ops).deep_view() == field_copied(
            class_name@,
            field_name@,
            field_ty.deep_view(),
            old(ops).deep_view(),
        ),
{
    proof {
        reveal(field_copied);
    }
    push_op(make_load(Kind::Reference, 0), ops);
    push_op(
        make_get_field(
            &make_member(class_name, field_name, Type::to_jvm_descriptor(field_ty).as_str()),
        ),
        ops,
    );
    if is_pointer_type(field_ty) {
        push_op(make_load(Kind::Reference, 0), ops);
        push_op(
            make_get_field(
                &make_member(
                    class_name,
                    relative_pointer_element_offset_field(field_name).as_str(),
                    "J",
                ),
            ),
            ops,
        );
        push_op(make_load(Kind::Reference, 0), ops);
        push_op(
            make_get_field(
                &make_member(
                    class_name,
                    relative_pointer_byte_offset_field(field_name).as_str(),
                    "J",
                ),
            ),
            ops,
        );
        push_op(
            make_invoke_static(
                &make_member(
                    POINTER_CLASS,
                    "materializeRelative",
                    "(Lorg/rustlang/runtime/Pointer;JJ)Lorg/rustlang/runtime/Pointer;",
                ),
            ),
            ops,
        );
    } else if Type::is_jvm_reference_type(field_ty) {
        push_op(
            make_invoke_static(
                &make_member(
                    POINTER_CLASS,
                    "copyManagedValue",
                    "(Ljava/lang/Object;)Ljava/lang/Object;",
                ),
            ),
            ops,
        );
        push_op(make_cast(field_ty), ops);
    } else {

    }
}

/// The code that copies the first fields.
pub open spec fn fields_copied(
    class_name: Text,
    fields: Seq<(Text, TypeModel)>,
    n: nat,
    ops: Seq<OpModel>,
) -> Seq<OpModel>
    decreases n,
{
    if n == 0 || n > fields.len() {
        ops
    } else {
        field_copied(
            class_name,
            fields[n - 1].0,
            fields[n - 1].1,
            fields_copied(class_name, fields, (n - 1) as nat, ops),
        )
    }
}

/// A sum that stops at the largest number.
pub open spec fn capped_sum(a: u16, b: u16) -> u16 {
    if a + b > u16::MAX {
        u16::MAX
    } else {
        (a + b) as u16
    }
}

fn add_capped(a: u16, b: u16) -> (r: u16)
    ensures
        r == capped_sum(a, b),
{
    if a > u16::MAX - b {
        u16::MAX
    } else {
        a + b
    }
}

/// The larger of two numbers.
pub open spec fn larger(a: u16, b: u16) -> u16 {
    if a > b {
        a
    } else {
        b
    }
}

fn larger_of(a: u16, b: u16) -> (r: u16)
    ensures
        r == larger(a, b),
{
    if a > b {
        a
    } else {
        b
    }
}

/// The slots of the first arguments, and the deepest stack that copying the first fields takes.
pub open spec fn copy_stack(fields: Seq<(Text, TypeModel)>, n: nat) -> (u16, u16)
    decreases n,
{
    if n == 0 || n > fields.len() {
        (0, 2)
    } else {
        let before = copy_stack(fields, (n - 1) as nat);
        let settled = if is_pointer(fields[n - 1].1) {
            larger(before.1, capped_sum(7, before.0))
        } else {
            before.1
        };
        let slots = capped_sum(before.0, slot_width(fields[n - 1].1));
        (slots, larger(settled, capped_sum(2, slots)))
    }
}

/// The method that copies an object field by field.
pub open spec fn copy_method(class_name: Text, fields: Seq<(Text, TypeModel)>) -> JvmMethodModel {
    method_with_ops(
        PUBLIC_FINAL,
        "rustCopy"@,
        "()Ljava/lang/Object;"@,
        copy_stack(fields, fields.len()).1,
        1,
        op_pushed(
            op_return(Kind::Reference),
            op_pushed(
                op_invoke_special(member(class_name, "<init>"@, setting_descriptor(fields))),
                fields_copied(
                    class_name,
                    fields,
                    fields.len(),
                    op_pushed(op_dup(), op_pushed(op_new(class_name), no_ops())),
                ),
            ),
        ),
    )
}

/// Makes the method that copies an object field by field.
pub fn create_managed_copy_method(class_name: &str, fields: &Vec<(String, Type)>) -> (r: JvmMethod)
    ensures
        r.deep_view() == copy_method(class_name@, fields.deep_view()),
{
    let ghost model = fields.deep_view();
    let constructor_descriptor = cat3("(", join_descriptors(fields).as_str(), ")V");
    let mut ops = empty_ops();
    push_op(make_new(class_name), &mut ops);
    push_op(make_dup(), &mut ops);
    let ghost start = ops.deep_view();
    let mut slots: u16 = 0;
    let mut max_stack: u16 = 2;
    for i in 0..fields.len()
        invariant
            model == fields.deep_view(),
            (slots, max_stack) == copy_stack(model, i as nat),
            ops.deep_view() == fields_copied(class_name@, model, i as nat, start),
    {
        assert(model[i as int] == fields@[i as int].deep_view());
        let ty = &fields[i].1;
        emit_field_copy(class_name, fields[i].0.as_str(), ty, &mut ops);
        if is_pointer_type(ty) {
            max_stack = larger_of(max_stack, add_capped(7, slots));
        }
        slots = add_capped(slots, get_type_size(ty));
        max_stack = larger_of(max_stack, add_capped(2, slots));
    }
    push_op(
        make_invoke_special(
            &make_member(class_name, "<init>", constructor_descriptor.as_str()),
        ),
        &mut ops,
    );
    push_op(make_return(Kind::Reference), &mut ops);
    make_method(PUBLIC_FINAL, "rustCopy", "()Ljava/lang/Object;", max_stack, 1, ops)
}

/// The two methods of an object that knows the memory which it is a view of.
#[verifier::opaque]
pub open spec fn origin_methods(
    class_name: Text,
    jvm_methods: Seq<JvmMethodModel>,
) -> Seq<JvmMethodModel> {
    let jvm_methods = origin_getter(class_name, jvm_methods);
    let jvm_methods = origin_setter(class_name, jvm_methods);
    jvm_methods
}

/// Adds the two methods of an object that knows the memory which it is a view of.
pub fn create_memory_view_origin_methods(class_name: &str, jvm_methods: &mut Vec<JvmMethod>)
    ensures
        final(jvm_methods).deep_view() == origin_methods(class_name@, old(jvm_methods).deep_view()),
{
    proof {
        reveal(origin_methods);
    }
    push_origin_getter(class_name, jvm_methods);
    push_origin_setter(class_name, jvm_methods);
}

/// The method that returns the memory which an object is a view of.
#[verifier::opaque]
pub open spec fn origin_getter(
    class_name: Text,
    jvm_methods: Seq<JvmMethodModel>,
) -> Seq<JvmMethodModel> {
    let ops = no_ops();
    let ops = op_pushed(op_load(Kind::Reference, 0), ops);
    let ops = op_pushed(
        op_get_field(member(class_name, MEMORY_VIEW_ORIGIN_FIELD@, "Ljava/lang/Object;"@)),
        ops,
    );
    let ops = op_pushed(op_return(Kind::Reference), ops);
    let jvm_methods = method_appended(
        method_with_ops(
            PUBLIC_FINAL_SYNTHETIC,
            "$rcj$getMemoryViewOrigin"@,
            "()Ljava/lang/Object;"@,
            1,
            1,
            ops,
        ),
        jvm_methods,
    );
    jvm_methods
}

/// Adds the method that returns the memory which an object is a view of.
pub fn push_origin_getter(class_name: &str, jvm_methods: &mut Vec<JvmMethod>)
    ensures
        final(jvm_methods).deep_view() == origin_getter(class_name@, old(jvm_methods).deep_view()),
{
    proof {
        reveal(origin_getter);
    }
    let mut ops = empty_ops();
    push_op(make_load(Kind::Reference, 0), &mut ops);
    push_op(
        make_get_field(&make_member(class_name, MEMORY_VIEW_ORIGIN_FIELD, "Ljava/lang/Object;")),
        &mut ops,
    );
    push_op(make_return(Kind::Reference), &mut ops);
    append_method(
        make_method(
            PUBLIC_FINAL_SYNTHETIC,
            "$rcj$getMemoryViewOrigin",
            "()Ljava/lang/Object;",
            1,
            1,
            ops,
        ),
        jvm_methods,
    );
}

/// The method that sets the memory which an object is a view of.
#[verifier::opaque]
pub open spec fn origin_setter(
    class_name: Text,
    jvm_methods: Seq<JvmMethodModel>,
) -> Seq<JvmMethodModel> {
    let ops = no_ops();
    let ops = op_pushed(op_load(Kind::Reference, 0), ops);
    let ops = op_pushed(op_load(Kind::Reference, 1), ops);
    let ops = op_pushed(
        op_put_field(member(class_name, MEMORY_VIEW_ORIGIN_FIELD@, "Ljava/lang/Object;"@)),
        ops,
    );
    let ops = op_pushed(op_return(Kind::Nothing), ops);
    let jvm_methods = method_appended(
        method_with_ops(
            PUBLIC_FINAL_SYNTHETIC,
            "$rcj$setMemoryViewOrigin"@,
            "(Ljava/lang/Object;)V"@,
            2,
            2,
            ops,
        ),
        jvm_methods,
    );
    jvm_methods
}

/// Adds the method that sets the memory which an object is a view of.
pub fn push_origin_setter(class_name: &str, jvm_methods: &mut Vec<JvmMethod>)
    ensures
        final(jvm_methods).deep_view() == origin_setter(class_name@, old(jvm_methods).deep_view()),
{
    proof {
        reveal(origin_setter);
    }
    let mut ops = empty_ops();
    push_op(make_load(Kind::Reference, 0), &mut ops);
    push_op(make_load(Kind::Reference, 1), &mut ops);
    push_op(
        make_put_field(&make_member(class_name, MEMORY_VIEW_ORIGIN_FIELD, "Ljava/lang/Object;")),
        &mut ops,
    );
    push_op(make_return(Kind::Nothing), &mut ops);
    append_method(
        make_method(
            PUBLIC_FINAL_SYNTHETIC,
            "$rcj$setMemoryViewOrigin",
            "(Ljava/lang/Object;)V",
            2,
            2,
            ops,
        ),
        jvm_methods,
    );
}

} // verus!
