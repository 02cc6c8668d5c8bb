//! The code of the runtime classes stays inside itself and inside its local variables.
use crate::jvm_ops::{JvmMethodModel, Kind, MethodBodyModel, Op, OpModel, no_jvm_methods};
use crate::view_classes::{
    slice_constructor, slice_encode_utf8, slice_from_string, slice_long_constructor,
    slice_starts_with, slice_starts_with_i32, slice_starts_with_i8, slice_to_array,
    slice_to_utf8_string, slice_view_methods, text_as_slice, text_constructor, text_equals,
    text_from_java, text_from_slice, text_len, text_long_constructor, text_starts_with,
    text_starts_with_char, text_to_java, text_view_methods,
};
use vstd::prelude::*;

verus! {

/// How many local variables a value of a kind takes.
pub open spec fn slots_of_kind(kind: Kind) -> int {
    match kind {
        Kind::Long => 2,
        Kind::Double => 2,
        Kind::Nothing => 0,
        _ => 1,
    }
}

/// Whether an instruction leads into its method only, and uses its local variables only.
pub open spec fn stays_inside(op: OpModel, count: int, max_locals: int) -> bool {
    match op {
        Op::Branch { target, .. } => target < count,
        Op::Goto { target } => target < count,
        Op::Load { kind, local } => local + slots_of_kind(kind) <= max_locals,
        Op::Store { kind, local } => local + slots_of_kind(kind) <= max_locals,
        Op::Increment { local, .. } => local < max_locals,
        _ => true,
    }
}

/// Whether the code of a method ends by returning, leads nowhere else, and uses the local variables
/// that the method declares.
pub open spec fn is_closed(method: JvmMethodModel) -> bool {
    &&& method.body matches MethodBodyModel::Ops { max_locals, ops, .. }
    &&& ops.len() > 0
    &&& ops.last() is Return
    &&& forall|k: int|
        0 <= k < ops.len() ==> stays_inside(#[trigger] ops[k], ops.len() as int, max_locals as int)
}

/// Whether all methods of a list are closed.
pub open spec fn are_closed(methods: Seq<JvmMethodModel>) -> bool {
    forall|i: int| 0 <= i < methods.len() ==> is_closed(#[trigger] methods[i])
}

proof fn slice_constructor_is_closed(methods: Seq<JvmMethodModel>)
    requires
        are_closed(methods),
    ensures
        are_closed(slice_constructor(methods)),
{
    reveal(slice_constructor);
    let more = slice_constructor(methods);
    let ops = more.last().body->ops;
    let locals = more.last().body->max_locals;
    assert forall|k: int| 0 <= k < ops.len() implies stays_inside(
        #[trigger] ops[k],
        ops.len() as int,
        locals as int,
    ) by {}
    assert(is_closed(more.last()));
}

proof fn slice_long_constructor_is_closed(methods: Seq<JvmMethodModel>)
    requires
        are_closed(methods),
    ensures
        are_closed(slice_long_constructor(methods)),
{
    reveal(slice_long_constructor);
    let more = slice_long_constructor(methods);
    let ops = more.last().body->ops;
    let locals = more.last().body->max_locals;
    assert forall|k: int| 0 <= k < ops.len() implies stays_inside(
        #[trigger] ops[k],
        ops.len() as int,
        locals as int,
    ) by {}
    assert(is_closed(more.last()));
}

proof fn slice_to_array_is_closed(methods: Seq<JvmMethodModel>)
    requires
        are_closed(methods),
    ensures
        are_closed(slice_to_array(methods)),
{
    reveal(slice_to_array);
    let more = slice_to_array(methods);
    let ops = more.last().body->ops;
    let locals = more.last().body->max_locals;
    assert forall|k: int| 0 <= k < ops.len() implies stays_inside(
        #[trigger] ops[k],
        ops.len() as int,
        locals as int,
    ) by {}
    assert(is_closed(more.last()));
}

proof fn slice_from_string_is_closed(methods: Seq<JvmMethodModel>)
    requires
        are_closed(methods),
    ensures
        are_closed(slice_from_string(methods)),
{
    reveal(slice_from_string);
    let more = slice_from_string(methods);
    let ops = more.last().body->ops;
    let locals = more.last().body->max_locals;
    assert forall|k: int| 0 <= k < ops.len() implies stays_inside(
        #[trigger] ops[k],
        ops.len() as int,
        locals as int,
    ) by {}
    assert(is_closed(more.last()));
}

proof fn slice_to_utf8_string_is_closed(methods: Seq<JvmMethodModel>)
    requires
        are_closed(methods),
    ensures
        are_closed(slice_to_utf8_string(methods)),
{
    reveal(slice_to_utf8_string);
    let more = slice_to_utf8_string(methods);
    let ops = more.last().body->ops;
    let locals = more.last().body->max_locals;
    assert forall|k: int| 0 <= k < ops.len() implies stays_inside(
        #[trigger] ops[k],
        ops.len() as int,
        locals as int,
    ) by {}
    assert(is_closed(more.last()));
}

proof fn slice_encode_utf8_is_closed(methods: Seq<JvmMethodModel>)
    requires
        are_closed(methods),
    ensures
        are_closed(slice_encode_utf8(methods)),
{
    reveal(slice_encode_utf8);
    let more = slice_encode_utf8(methods);
    let ops = more.last().body->ops;
    let locals = more.last().body->max_locals;
    assert forall|k: int| 0 <= k < ops.len() implies stays_inside(
        #[trigger] ops[k],
        ops.len() as int,
        locals as int,
    ) by {}
    assert(is_closed(more.last()));
}

proof fn slice_starts_with_is_closed(methods: Seq<JvmMethodModel>)
    requires
        are_closed(methods),
    ensures
        are_closed(slice_starts_with(methods)),
{
    reveal(slice_starts_with);
    let more = slice_starts_with(methods);
    let ops = more.last().body->ops;
    let locals = more.last().body->max_locals;
    assert forall|k: int| 0 <= k < ops.len() implies stays_inside(
        #[trigger] ops[k],
        ops.len() as int,
        locals as int,
    ) by {}
    assert(is_closed(more.last()));
}

proof fn slice_starts_with_i8_is_closed(methods: Seq<JvmMethodModel>)
    requires
        are_closed(methods),
    ensures
        are_closed(slice_starts_with_i8(methods)),
{
    reveal(slice_starts_with_i8);
    let more = slice_starts_with_i8(methods);
    let ops = more.last().body->ops;
    let locals = more.last().body->max_locals;
    assert forall|k: int| 0 <= k < ops.len() implies stays_inside(
        #[trigger] ops[k],
        ops.len() as int,
        locals as int,
    ) by {}
    assert(is_closed(more.last()));
}

proof fn slice_starts_with_i32_is_closed(methods: Seq<JvmMethodModel>)
    requires
        are_closed(methods),
    ensures
        are_closed(slice_starts_with_i32(methods)),
{
    reveal(slice_starts_with_i32);
    let more = slice_starts_with_i32(methods);
    let ops = more.last().body->ops;
    let locals = more.last().body->max_locals;
    assert forall|k: int| 0 <= k < ops.len() implies stays_inside(
        #[trigger] ops[k],
        ops.len() as int,
        locals as int,
    ) by {}
    assert(is_closed(more.last()));
}

proof fn text_constructor_is_closed(methods: Seq<JvmMethodModel>)
    requires
        are_closed(methods),
    ensures
        are_closed(text_constructor(methods)),
{
    reveal(text_constructor);
    let more = text_constructor(methods);
    let ops = more.last().body->ops;
    let locals = more.last().body->max_locals;
    assert forall|k: int| 0 <= k < ops.len() implies stays_inside(
        #[trigger] ops[k],
        ops.len() as int,
        locals as int,
    ) by {}
    assert(is_closed(more.last()));
}

proof fn text_long_constructor_is_closed(methods: Seq<JvmMethodModel>)
    requires
        are_closed(methods),
    ensures
        are_closed(text_long_constructor(methods)),
{
    reveal(text_long_constructor);
    let more = text_long_constructor(methods);
    let ops = more.last().body->ops;
    let locals = more.last().body->max_locals;
    assert forall|k: int| 0 <= k < ops.len() implies stays_inside(
        #[trigger] ops[k],
        ops.len() as int,
        locals as int,
    ) by {}
    assert(is_closed(more.last()));
}

proof fn text_from_java_is_closed(methods: Seq<JvmMethodModel>)
    requires
        are_closed(methods),
    ensures
        are_closed(text_from_java(methods)),
{
    reveal(text_from_java);
    let more = text_from_java(methods);
    let ops = more.last().body->ops;
    let locals = more.last().body->max_locals;
    assert forall|k: int| 0 <= k < ops.len() implies stays_inside(
        #[trigger] ops[k],
        ops.len() as int,
        locals as int,
    ) by {}
    assert(is_closed(more.last()));
}

proof fn text_to_java_is_closed(methods: Seq<JvmMethodModel>)
    requires
        are_closed(methods),
    ensures
        are_closed(text_to_java(methods)),
{
    reveal(text_to_java);
    let more = text_to_java(methods);
    let ops = more.last().body->ops;
    let locals = more.last().body->max_locals;
    assert forall|k: int| 0 <= k < ops.len() implies stays_inside(
        #[trigger] ops[k],
        ops.len() as int,
        locals as int,
    ) by {}
    assert(is_closed(more.last()));
}

proof fn text_as_slice_is_closed(methods: Seq<JvmMethodModel>)
    requires
        are_closed(methods),
    ensures
        are_closed(text_as_slice(methods)),
{
    reveal(text_as_slice);
    let more = text_as_slice(methods);
    let ops = more.last().body->ops;
    let locals = more.last().body->max_locals;
    assert forall|k: int| 0 <= k < ops.len() implies stays_inside(
        #[trigger] ops[k],
        ops.len() as int,
        locals as int,
    ) by {}
    assert(is_closed(more.last()));
}

proof fn text_from_slice_is_closed(methods: Seq<JvmMethodModel>)
    requires
        are_closed(methods),
    ensures
        are_closed(text_from_slice(methods)),
{
    reveal(text_from_slice);
    let more = text_from_slice(methods);
    let ops = more.last().body->ops;
    let locals = more.last().body->max_locals;
    assert forall|k: int| 0 <= k < ops.len() implies stays_inside(
        #[trigger] ops[k],
        ops.len() as int,
        locals as int,
    ) by {}
    assert(is_closed(more.last()));
}

proof fn text_len_is_closed(methods: Seq<JvmMethodModel>)
    requires
        are_closed(methods),
    ensures
        are_closed(text_len(methods)),
{
    reveal(text_len);
    let more = text_len(methods);
    let ops = more.last().body->ops;
    let locals = more.last().body->max_locals;
    assert forall|k: int| 0 <= k < ops.len() implies stays_inside(
        #[trigger] ops[k],
        ops.len() as int,
        locals as int,
    ) by {}
    assert(is_closed(more.last()));
}

proof fn text_starts_with_is_closed(methods: Seq<JvmMethodModel>)
    requires
        are_closed(methods),
    ensures
        are_closed(text_starts_with(methods)),
{
    reveal(text_starts_with);
    let more = text_starts_with(methods);
    let ops = more.last().body->ops;
    let locals = more.last().body->max_locals;
    assert forall|k: int| 0 <= k < ops.len() implies stays_inside(
        #[trigger] ops[k],
        ops.len() as int,
        locals as int,
    ) by {}
    assert(is_closed(more.last()));
}

proof fn text_equals_is_closed(methods: Seq<JvmMethodModel>)
    requires
        are_closed(methods),
    ensures
        are_closed(text_equals(methods)),
{
    reveal(text_equals);
    let more = text_equals(methods);
    let ops = more.last().body->ops;
    let locals = more.last().body->max_locals;
    assert forall|k: int| 0 <= k < ops.len() implies stays_inside(
        #[trigger] ops[k],
        ops.len() as int,
        locals as int,
    ) by {}
    assert(is_closed(more.last()));
}

proof fn text_starts_with_char_is_closed(methods: Seq<JvmMethodModel>)
    requires
        are_closed(methods),
    ensures
        are_closed(text_starts_with_char(methods)),
{
    reveal(text_starts_with_char);
    let more = text_starts_with_char(methods);
    let ops = more.last().body->ops;
    let locals = more.last().body->max_locals;
    assert forall|k: int| 0 <= k < ops.len() implies stays_inside(
        #[trigger] ops[k],
        ops.len() as int,
        locals as int,
    ) by {}
    assert(is_closed(more.last()));
}

/// The methods of the classes of slices and of text end by returning, lead nowhere outside of their
/// code, and use the local variables that they declare.
pub proof fn methods_of_views_are_closed()
    ensures
        are_closed(slice_view_methods()),
        are_closed(text_view_methods()),
{
    methods_of_slices_are_closed();
    methods_of_text_are_closed();
}

proof fn methods_of_slices_are_closed()
    ensures
        are_closed(slice_view_methods()),
{
    reveal(slice_view_methods);
    let none = no_jvm_methods();
    slice_constructor_is_closed(none);
    let m1 = slice_constructor(none);
    slice_long_constructor_is_closed(m1);
    let m2 = slice_long_constructor(m1);
    slice_to_array_is_closed(m2);
    let m3 = slice_to_array(m2);
    slice_from_string_is_closed(m3);
    let m4 = slice_from_string(m3);
    slice_to_utf8_string_is_closed(m4);
    let m5 = slice_to_utf8_string(m4);
    slice_encode_utf8_is_closed(m5);
    let m6 = slice_encode_utf8(m5);
    slice_starts_with_is_closed(m6);
    let m7 = slice_starts_with(m6);
    slice_starts_with_i8_is_closed(m7);
    let m8 = slice_starts_with_i8(m7);
    slice_starts_with_i32_is_closed(m8);
}

proof fn methods_of_text_are_closed()
    ensures
        are_closed(text_view_methods()),
{
    reveal(text_view_methods);
    let none = no_jvm_methods();
    text_constructor_is_closed(none);
    let m1 = text_constructor(none);
    text_long_constructor_is_closed(m1);
    let m2 = text_long_constructor(m1);
    text_from_java_is_closed(m2);
    let m3 = text_from_java(m2);
    text_to_java_is_closed(m3);
    let m4 = text_to_java(m3);
    text_as_slice_is_closed(m4);
    let m5 = text_as_slice(m4);
    text_from_slice_is_closed(m5);
    let m6 = text_from_slice(m5);
    text_len_is_closed(m6);
    let m7 = text_len(m6);
    text_starts_with_is_closed(m7);
    let m8 = text_starts_with(m7);
    text_equals_is_closed(m8);
    let m9 = text_equals(m8);
    text_starts_with_char_is_closed(m9);
}

} // verus!
