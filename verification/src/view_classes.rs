//! The runtime classes of slices and of text: views of a part of an allocation.
use crate::code::{object_class, object_type};
use crate::descriptor::{OBJECT_CLASS, POINTER_CLASS, SLICE_VIEW_CLASS, UTF8_VIEW_CLASS};
use crate::jvm_ops::{
    ClassFile, ClassFileModel, Condition, JvmField, JvmFieldModel, JvmMethod, JvmMethodModel,
    Kind, PUBLIC, PUBLIC_FINAL, PUBLIC_FINAL_SUPER, PUBLIC_STATIC, PUBLIC_SUPER, append_method,
    empty_jvm_methods, empty_ops, jvm_field, make_add_int, make_branch, make_check_cast, make_dup,
    make_get_field, make_get_static, make_goto, make_increment, make_int_to_long,
    make_invoke_special, make_invoke_static, make_invoke_virtual, make_jvm_field, make_load,
    make_long_to_int, make_member, make_method, make_new, make_plain_class, make_push_int,
    make_push_text, make_put_field, make_return, make_store, member, method_appended,
    method_with_ops, no_jvm_methods, no_ops, op_add_int, op_branch, op_check_cast, op_dup,
    op_get_field, op_get_static, op_goto, op_increment, op_int_to_long, op_invoke_special,
    op_invoke_static, op_invoke_virtual, op_load, op_long_to_int, op_new, op_push_int,
    op_push_text, op_pushed, op_put_field, op_return, op_store, plain_class, push_op,
};
use crate::oomir::Type;
use vstd::prelude::*;
use vstd::string::*;

verus! {

/// The method that makes a view with a length of 32 bits.
#[verifier::opaque]
pub open spec fn slice_constructor(jvm_methods: Seq<JvmMethodModel>) -> Seq<JvmMethodModel> {
    let ops = no_ops();
    let ops = op_pushed(op_load(Kind::Reference, 0), ops);
    let ops = op_pushed(op_invoke_special(member(OBJECT_CLASS@, "<init>"@, "()V"@)), ops);
    let ops = op_pushed(op_load(Kind::Reference, 0), ops);
    let ops = op_pushed(op_load(Kind::Reference, 1), ops);
    let ops = op_pushed(
        op_put_field(member(SLICE_VIEW_CLASS@, "array"@, "Ljava/lang/Object;"@)),
        ops,
    );
    let ops = op_pushed(op_load(Kind::Reference, 0), ops);
    let ops = op_pushed(op_load(Kind::Int, 2), ops);
    let ops = op_pushed(op_put_field(member(SLICE_VIEW_CLASS@, "offset"@, "I"@)), ops);
    let ops = op_pushed(op_load(Kind::Reference, 0), ops);
    let ops = op_pushed(op_load(Kind::Int, 3), ops);
    let ops = op_pushed(op_put_field(member(SLICE_VIEW_CLASS@, "length"@, "I"@)), ops);
    let ops = op_pushed(op_load(Kind::Reference, 0), ops);
    let ops = op_pushed(op_load(Kind::Int, 3), ops);
    let ops = op_pushed(op_int_to_long(), ops);
    let ops = op_pushed(op_put_field(member(SLICE_VIEW_CLASS@, "rustLength"@, "J"@)), ops);
    let ops = op_pushed(op_return(Kind::Nothing), ops);
    let jvm_methods = method_appended(
        method_with_ops(PUBLIC, "<init>"@, "(Ljava/lang/Object;II)V"@, 3, 4, ops),
        jvm_methods,
    );
    jvm_methods
}

/// Adds the method that makes a view with a length of 32 bits.
pub fn push_slice_constructor(jvm_methods: &mut Vec<JvmMethod>)
    ensures
        final(jvm_methods).deep_view() == slice_constructor(old(jvm_methods).deep_view()),
{
    proof {
        reveal(slice_constructor);
    }
    let mut ops = empty_ops();
    push_op(make_load(Kind::Reference, 0), &mut ops);
    push_op(make_invoke_special(&make_member(OBJECT_CLASS, "<init>", "()V")), &mut ops);
    push_op(make_load(Kind::Reference, 0), &mut ops);
    push_op(make_load(Kind::Reference, 1), &mut ops);
    push_op(
        make_put_field(&make_member(SLICE_VIEW_CLASS, "array", "Ljava/lang/Object;")),
        &mut ops,
    );
    push_op(make_load(Kind::Reference, 0), &mut ops);
    push_op(make_load(Kind::Int, 2), &mut ops);
    push_op(make_put_field(&make_member(SLICE_VIEW_CLASS, "offset", "I")), &mut ops);
    push_op(make_load(Kind::Reference, 0), &mut ops);
    push_op(make_load(Kind::Int, 3), &mut ops);
    push_op(make_put_field(&make_member(SLICE_VIEW_CLASS, "length", "I")), &mut ops);
    push_op(make_load(Kind::Reference, 0), &mut ops);
    push_op(make_load(Kind::Int, 3), &mut ops);
    push_op(make_int_to_long(), &mut ops);
    push_op(make_put_field(&make_member(SLICE_VIEW_CLASS, "rustLength", "J")), &mut ops);
    push_op(make_return(Kind::Nothing), &mut ops);
    append_method(make_method(PUBLIC, "<init>", "(Ljava/lang/Object;II)V", 3, 4, ops), jvm_methods);
}

/// The method that makes a view with a length of 64 bits.
#[verifier::opaque]
pub open spec fn slice_long_constructor(jvm_methods: Seq<JvmMethodModel>) -> Seq<JvmMethodModel> {
    let ops = no_ops();
    let ops = op_pushed(op_load(Kind::Reference, 0), ops);
    let ops = op_pushed(op_invoke_special(member(OBJECT_CLASS@, "<init>"@, "()V"@)), ops);
    let ops = op_pushed(op_load(Kind::Reference, 0), ops);
    let ops = op_pushed(op_load(Kind::Reference, 1), ops);
    let ops = op_pushed(
        op_put_field(member(SLICE_VIEW_CLASS@, "array"@, "Ljava/lang/Object;"@)),
        ops,
    );
    let ops = op_pushed(op_load(Kind::Reference, 0), ops);
    let ops = op_pushed(op_load(Kind::Int, 2), ops);
    let ops = op_pushed(op_put_field(member(SLICE_VIEW_CLASS@, "offset"@, "I"@)), ops);
    let ops = op_pushed(op_load(Kind::Reference, 0), ops);
    let ops = op_pushed(op_load(Kind::Long, 3), ops);
    let ops = op_pushed(op_long_to_int(), ops);
    let ops = op_pushed(op_put_field(member(SLICE_VIEW_CLASS@, "length"@, "I"@)), ops);
    let ops = op_pushed(op_load(Kind::Reference, 0), ops);
    let ops = op_pushed(op_load(Kind::Long, 3), ops);
    let ops = op_pushed(op_put_field(member(SLICE_VIEW_CLASS@, "rustLength"@, "J"@)), ops);
    let ops = op_pushed(op_return(Kind::Nothing), ops);
    let jvm_methods = method_appended(
        method_with_ops(PUBLIC, "<init>"@, "(Ljava/lang/Object;IJ)V"@, 3, 5, ops),
        jvm_methods,
    );
    jvm_methods
}

/// Adds the method that makes a view with a length of 64 bits.
pub fn push_slice_long_constructor(jvm_methods: &mut Vec<JvmMethod>)
    ensures
        final(jvm_methods).deep_view() == slice_long_constructor(old(jvm_methods).deep_view()),
{
    proof {
        reveal(slice_long_constructor);
    }
    let mut ops = empty_ops();
    push_op(make_load(Kind::Reference, 0), &mut ops);
    push_op(make_invoke_special(&make_member(OBJECT_CLASS, "<init>", "()V")), &mut ops);
    push_op(make_load(Kind::Reference, 0), &mut ops);
    push_op(make_load(Kind::Reference, 1), &mut ops);
    push_op(
        make_put_field(&make_member(SLICE_VIEW_CLASS, "array", "Ljava/lang/Object;")),
        &mut ops,
    );
    push_op(make_load(Kind::Reference, 0), &mut ops);
    push_op(make_load(Kind::Int, 2), &mut ops);
    push_op(make_put_field(&make_member(SLICE_VIEW_CLASS, "offset", "I")), &mut ops);
    push_op(make_load(Kind::Reference, 0), &mut ops);
    push_op(make_load(Kind::Long, 3), &mut ops);
    push_op(make_long_to_int(), &mut ops);
    push_op(make_put_field(&make_member(SLICE_VIEW_CLASS, "length", "I")), &mut ops);
    push_op(make_load(Kind::Reference, 0), &mut ops);
    push_op(make_load(Kind::Long, 3), &mut ops);
    push_op(make_put_field(&make_member(SLICE_VIEW_CLASS, "rustLength", "J")), &mut ops);
    push_op(make_return(Kind::Nothing), &mut ops);
    append_method(make_method(PUBLIC, "<init>", "(Ljava/lang/Object;IJ)V", 3, 5, ops), jvm_methods);
}

/// The method that copies the elements of a view into an array.
#[verifier::opaque]
pub open spec fn slice_to_array(jvm_methods: Seq<JvmMethodModel>) -> Seq<JvmMethodModel> {
    let ops = no_ops();
    let ops = op_pushed(op_load(Kind::Reference, 0), ops);
    let ops = op_pushed(
        op_get_field(member(SLICE_VIEW_CLASS@, "array"@, "Ljava/lang/Object;"@)),
        ops,
    );
    let ops = op_pushed(
        op_invoke_virtual(member(OBJECT_CLASS@, "getClass"@, "()Ljava/lang/Class;"@)),
        ops,
    );
    let ops = op_pushed(
        op_invoke_virtual(member("java/lang/Class"@, "getComponentType"@, "()Ljava/lang/Class;"@)),
        ops,
    );
    let ops = op_pushed(op_load(Kind::Reference, 0), ops);
    let ops = op_pushed(op_get_field(member(SLICE_VIEW_CLASS@, "length"@, "I"@)), ops);
    let ops = op_pushed(
        op_invoke_static(
            member(
                "java/lang/reflect/Array"@,
                "newInstance"@,
                "(Ljava/lang/Class;I)Ljava/lang/Object;"@,
            ),
        ),
        ops,
    );
    let ops = op_pushed(op_store(Kind::Reference, 1), ops);
    let ops = op_pushed(op_load(Kind::Reference, 0), ops);
    let ops = op_pushed(
        op_get_field(member(SLICE_VIEW_CLASS@, "array"@, "Ljava/lang/Object;"@)),
        ops,
    );
    let ops = op_pushed(op_load(Kind::Reference, 0), ops);
    let ops = op_pushed(op_get_field(member(SLICE_VIEW_CLASS@, "offset"@, "I"@)), ops);
    let ops = op_pushed(op_load(Kind::Reference, 1), ops);
    let ops = op_pushed(op_push_int(0), ops);
    let ops = op_pushed(op_load(Kind::Reference, 0), ops);
    let ops = op_pushed(op_get_field(member(SLICE_VIEW_CLASS@, "length"@, "I"@)), ops);
    let ops = op_pushed(
        op_invoke_static(
            member(
                "java/lang/System"@,
                "arraycopy"@,
                "(Ljava/lang/Object;ILjava/lang/Object;II)V"@,
            ),
        ),
        ops,
    );
    let ops = op_pushed(op_load(Kind::Reference, 1), ops);
    let ops = op_pushed(op_return(Kind::Reference), ops);
    let jvm_methods = method_appended(
        method_with_ops(PUBLIC_FINAL, "toArray"@, "()Ljava/lang/Object;"@, 5, 2, ops),
        jvm_methods,
    );
    jvm_methods
}

/// Adds the method that copies the elements of a view into an array.
pub fn push_slice_to_array(jvm_methods: &mut Vec<JvmMethod>)
    ensures
        final(jvm_methods).deep_view() == slice_to_array(old(jvm_methods).deep_view()),
{
    proof {
        reveal(slice_to_array);
    }
    let mut ops = empty_ops();
    push_op(make_load(Kind::Reference, 0), &mut ops);
    push_op(
        make_get_field(&make_member(SLICE_VIEW_CLASS, "array", "Ljava/lang/Object;")),
        &mut ops,
    );
    push_op(
        make_invoke_virtual(&make_member(OBJECT_CLASS, "getClass", "()Ljava/lang/Class;")),
        &mut ops,
    );
    push_op(
        make_invoke_virtual(
            &make_member("java/lang/Class", "getComponentType", "()Ljava/lang/Class;"),
        ),
        &mut ops,
    );
    push_op(make_load(Kind::Reference, 0), &mut ops);
    push_op(make_get_field(&make_member(SLICE_VIEW_CLASS, "length", "I")), &mut ops);
    push_op(
        make_invoke_static(
            &make_member(
                "java/lang/reflect/Array",
                "newInstance",
                "(Ljava/lang/Class;I)Ljava/lang/Object;",
            ),
        ),
        &mut ops,
    );
    push_op(make_store(Kind::Reference, 1), &mut ops);
    push_op(make_load(Kind::Reference, 0), &mut ops);
    push_op(
        make_get_field(&make_member(SLICE_VIEW_CLASS, "array", "Ljava/lang/Object;")),
        &mut ops,
    );
    push_op(make_load(Kind::Reference, 0), &mut ops);
    push_op(make_get_field(&make_member(SLICE_VIEW_CLASS, "offset", "I")), &mut ops);
    push_op(make_load(Kind::Reference, 1), &mut ops);
    push_op(make_push_int(0), &mut ops);
    push_op(make_load(Kind::Reference, 0), &mut ops);
    push_op(make_get_field(&make_member(SLICE_VIEW_CLASS, "length", "I")), &mut ops);
    push_op(
        make_invoke_static(
            &make_member(
                "java/lang/System",
                "arraycopy",
                "(Ljava/lang/Object;ILjava/lang/Object;II)V",
            ),
        ),
        &mut ops,
    );
    push_op(make_load(Kind::Reference, 1), &mut ops);
    push_op(make_return(Kind::Reference), &mut ops);
    append_method(
        make_method(PUBLIC_FINAL, "toArray", "()Ljava/lang/Object;", 5, 2, ops),
        jvm_methods,
    );
}

/// The method that makes a view of the bytes of a string.
#[verifier::opaque]
pub open spec fn slice_from_string(jvm_methods: Seq<JvmMethodModel>) -> Seq<JvmMethodModel> {
    let ops = no_ops();
    let ops = op_pushed(op_load(Kind::Reference, 0), ops);
    let ops = op_pushed(op_push_text(SLICE_VIEW_CLASS@), ops);
    let ops = op_pushed(
        op_invoke_static(
            member(
                POINTER_CLASS@,
                "stringView"@,
                "(Ljava/lang/String;Ljava/lang/String;)Ljava/lang/Object;"@,
            ),
        ),
        ops,
    );
    let ops = op_pushed(op_check_cast(SLICE_VIEW_CLASS@), ops);
    let ops = op_pushed(op_return(Kind::Reference), ops);
    let jvm_methods = method_appended(
        method_with_ops(
            PUBLIC_STATIC,
            "fromString"@,
            "(Ljava/lang/String;)Lorg/rustlang/runtime/SliceView;"@,
            2,
            1,
            ops,
        ),
        jvm_methods,
    );
    jvm_methods
}

/// Adds the method that makes a view of the bytes of a string.
pub fn push_slice_from_string(jvm_methods: &mut Vec<JvmMethod>)
    ensures
        final(jvm_methods).deep_view() == slice_from_string(old(jvm_methods).deep_view()),
{
    proof {
        reveal(slice_from_string);
    }
    let mut ops = empty_ops();
    push_op(make_load(Kind::Reference, 0), &mut ops);
    push_op(make_push_text(SLICE_VIEW_CLASS), &mut ops);
    push_op(
        make_invoke_static(
            &make_member(
                POINTER_CLASS,
                "stringView",
                "(Ljava/lang/String;Ljava/lang/String;)Ljava/lang/Object;",
            ),
        ),
        &mut ops,
    );
    push_op(make_check_cast(SLICE_VIEW_CLASS), &mut ops);
    push_op(make_return(Kind::Reference), &mut ops);
    append_method(
        make_method(
            PUBLIC_STATIC,
            "fromString",
            "(Ljava/lang/String;)Lorg/rustlang/runtime/SliceView;",
            2,
            1,
            ops,
        ),
        jvm_methods,
    );
}

/// The method that makes a string of the bytes of a view.
#[verifier::opaque]
pub open spec fn slice_to_utf8_string(jvm_methods: Seq<JvmMethodModel>) -> Seq<JvmMethodModel> {
    let ops = no_ops();
    let ops = op_pushed(op_load(Kind::Reference, 0), ops);
    let ops = op_pushed(
        op_get_field(member(SLICE_VIEW_CLASS@, "array"@, "Ljava/lang/Object;"@)),
        ops,
    );
    let ops = op_pushed(op_load(Kind::Reference, 0), ops);
    let ops = op_pushed(op_get_field(member(SLICE_VIEW_CLASS@, "offset"@, "I"@)), ops);
    let ops = op_pushed(op_load(Kind::Reference, 0), ops);
    let ops = op_pushed(op_get_field(member(SLICE_VIEW_CLASS@, "length"@, "I"@)), ops);
    let ops = op_pushed(
        op_invoke_static(member(POINTER_CLASS@, "sliceToByteArray"@, "(Ljava/lang/Object;II)[B"@)),
        ops,
    );
    let ops = op_pushed(op_store(Kind::Reference, 1), ops);
    let ops = op_pushed(op_new("java/lang/String"@), ops);
    let ops = op_pushed(op_dup(), ops);
    let ops = op_pushed(op_load(Kind::Reference, 1), ops);
    let ops = op_pushed(
        op_get_static(
            member("java/nio/charset/StandardCharsets"@, "UTF_8"@, "Ljava/nio/charset/Charset;"@),
        ),
        ops,
    );
    let ops = op_pushed(
        op_invoke_special(
            member("java/lang/String"@, "<init>"@, "([BLjava/nio/charset/Charset;)V"@),
        ),
        ops,
    );
    let ops = op_pushed(op_return(Kind::Reference), ops);
    let jvm_methods = method_appended(
        method_with_ops(
            PUBLIC_STATIC,
            "toUtf8String"@,
            "(Lorg/rustlang/runtime/SliceView;)Ljava/lang/String;"@,
            4,
            2,
            ops,
        ),
        jvm_methods,
    );
    jvm_methods
}

/// Adds the method that makes a string of the bytes of a view.
pub fn push_slice_to_utf8_string(jvm_methods: &mut Vec<JvmMethod>)
    ensures
        final(jvm_methods).deep_view() == slice_to_utf8_string(old(jvm_methods).deep_view()),
{
    proof {
        reveal(slice_to_utf8_string);
    }
    let mut ops = empty_ops();
    push_op(make_load(Kind::Reference, 0), &mut ops);
    push_op(
        make_get_field(&make_member(SLICE_VIEW_CLASS, "array", "Ljava/lang/Object;")),
        &mut ops,
    );
    push_op(make_load(Kind::Reference, 0), &mut ops);
    push_op(make_get_field(&make_member(SLICE_VIEW_CLASS, "offset", "I")), &mut ops);
    push_op(make_load(Kind::Reference, 0), &mut ops);
    push_op(make_get_field(&make_member(SLICE_VIEW_CLASS, "length", "I")), &mut ops);
    push_op(
        make_invoke_static(
            &make_member(POINTER_CLASS, "sliceToByteArray", "(Ljava/lang/Object;II)[B"),
        ),
        &mut ops,
    );
    push_op(make_store(Kind::Reference, 1), &mut ops);
    push_op(make_new("java/lang/String"), &mut ops);
    push_op(make_dup(), &mut ops);
    push_op(make_load(Kind::Reference, 1), &mut ops);
    push_op(
        make_get_static(
            &make_member(
                "java/nio/charset/StandardCharsets",
                "UTF_8",
                "Ljava/nio/charset/Charset;",
            ),
        ),
        &mut ops,
    );
    push_op(
        make_invoke_special(
            &make_member("java/lang/String", "<init>", "([BLjava/nio/charset/Charset;)V"),
        ),
        &mut ops,
    );
    push_op(make_return(Kind::Reference), &mut ops);
    append_method(
        make_method(
            PUBLIC_STATIC,
            "toUtf8String",
            "(Lorg/rustlang/runtime/SliceView;)Ljava/lang/String;",
            4,
            2,
            ops,
        ),
        jvm_methods,
    );
}

/// The method that writes the bytes of a character into a view and returns the text that they are.
#[verifier::opaque]
pub open spec fn slice_encode_utf8(jvm_methods: Seq<JvmMethodModel>) -> Seq<JvmMethodModel> {
    let ops = no_ops();
    let ops = op_pushed(op_load(Kind::Int, 0), ops);
    let ops = op_pushed(
        op_invoke_static(member("java/lang/Character"@, "toChars"@, "(I)[C"@)),
        ops,
    );
    let ops = op_pushed(
        op_invoke_static(member("java/lang/String"@, "valueOf"@, "([C)Ljava/lang/String;"@)),
        ops,
    );
    let ops = op_pushed(op_store(Kind::Reference, 2), ops);
    let ops = op_pushed(op_load(Kind::Reference, 2), ops);
    let ops = op_pushed(
        op_invoke_static(
            member(
                SLICE_VIEW_CLASS@,
                "fromString"@,
                "(Ljava/lang/String;)Lorg/rustlang/runtime/SliceView;"@,
            ),
        ),
        ops,
    );
    let ops = op_pushed(op_store(Kind::Reference, 3), ops);
    let ops = op_pushed(op_load(Kind::Reference, 3), ops);
    let ops = op_pushed(
        op_get_field(member(SLICE_VIEW_CLASS@, "array"@, "Ljava/lang/Object;"@)),
        ops,
    );
    let ops = op_pushed(op_load(Kind::Reference, 3), ops);
    let ops = op_pushed(op_get_field(member(SLICE_VIEW_CLASS@, "offset"@, "I"@)), ops);
    let ops = op_pushed(op_load(Kind::Reference, 1), ops);
    let ops = op_pushed(
        op_get_field(member(SLICE_VIEW_CLASS@, "array"@, "Ljava/lang/Object;"@)),
        ops,
    );
    let ops = op_pushed(op_load(Kind::Reference, 1), ops);
    let ops = op_pushed(op_get_field(member(SLICE_VIEW_CLASS@, "offset"@, "I"@)), ops);
    let ops = op_pushed(op_load(Kind::Reference, 3), ops);
    let ops = op_pushed(op_get_field(member(SLICE_VIEW_CLASS@, "length"@, "I"@)), ops);
    let ops = op_pushed(
        op_invoke_static(
            member(
                "java/lang/System"@,
                "arraycopy"@,
                "(Ljava/lang/Object;ILjava/lang/Object;II)V"@,
            ),
        ),
        ops,
    );
    let ops = op_pushed(op_new(UTF8_VIEW_CLASS@), ops);
    let ops = op_pushed(op_dup(), ops);
    let ops = op_pushed(op_load(Kind::Reference, 1), ops);
    let ops = op_pushed(
        op_get_field(member(SLICE_VIEW_CLASS@, "array"@, "Ljava/lang/Object;"@)),
        ops,
    );
    let ops = op_pushed(op_load(Kind::Reference, 1), ops);
    let ops = op_pushed(op_get_field(member(SLICE_VIEW_CLASS@, "offset"@, "I"@)), ops);
    let ops = op_pushed(op_load(Kind::Reference, 3), ops);
    let ops = op_pushed(op_get_field(member(SLICE_VIEW_CLASS@, "length"@, "I"@)), ops);
    let ops = op_pushed(
        op_invoke_special(member(UTF8_VIEW_CLASS@, "<init>"@, "(Ljava/lang/Object;II)V"@)),
        ops,
    );
    let ops = op_pushed(op_return(Kind::Reference), ops);
    let jvm_methods = method_appended(
        method_with_ops(
            PUBLIC_STATIC,
            "encodeUtf8"@,
            "(ILorg/rustlang/runtime/SliceView;)Lorg/rustlang/runtime/Utf8View;"@,
            5,
            4,
            ops,
        ),
        jvm_methods,
    );
    jvm_methods
}

/// Adds the method that writes the bytes of a character into a view and returns the text that they
/// are.
pub fn push_slice_encode_utf8(jvm_methods: &mut Vec<JvmMethod>)
    ensures
        final(jvm_methods).deep_view() == slice_encode_utf8(old(jvm_methods).deep_view()),
{
    proof {
        reveal(slice_encode_utf8);
    }
    let mut ops = empty_ops();
    push_op(make_load(Kind::Int, 0), &mut ops);
    push_op(make_invoke_static(&make_member("java/lang/Character", "toChars", "(I)[C")), &mut ops);
    push_op(
        make_invoke_static(&make_member("java/lang/String", "valueOf", "([C)Ljava/lang/String;")),
        &mut ops,
    );
    push_op(make_store(Kind::Reference, 2), &mut ops);
    push_op(make_load(Kind::Reference, 2), &mut ops);
    push_op(
        make_invoke_static(
            &make_member(
                SLICE_VIEW_CLASS,
                "fromString",
                "(Ljava/lang/String;)Lorg/rustlang/runtime/SliceView;",
            ),
        ),
        &mut ops,
    );
    push_op(make_store(Kind::Reference, 3), &mut ops);
    push_op(make_load(Kind::Reference, 3), &mut ops);
    push_op(
        make_get_field(&make_member(SLICE_VIEW_CLASS, "array", "Ljava/lang/Object;")),
        &mut ops,
    );
    push_op(make_load(Kind::Reference, 3), &mut ops);
    push_op(make_get_field(&make_member(SLICE_VIEW_CLASS, "offset", "I")), &mut ops);
    push_op(make_load(Kind::Reference, 1), &mut ops);
    push_op(
        make_get_field(&make_member(SLICE_VIEW_CLASS, "array", "Ljava/lang/Object;")),
        &mut ops,
    );
    push_op(make_load(Kind::Reference, 1), &mut ops);
    push_op(make_get_field(&make_member(SLICE_VIEW_CLASS, "offset", "I")), &mut ops);
    push_op(make_load(Kind::Reference, 3), &mut ops);
    push_op(make_get_field(&make_member(SLICE_VIEW_CLASS, "length", "I")), &mut ops);
    push_op(
        make_invoke_static(
            &make_member(
                "java/lang/System",
                "arraycopy",
                "(Ljava/lang/Object;ILjava/lang/Object;II)V",
            ),
        ),
        &mut ops,
    );
    push_op(make_new(UTF8_VIEW_CLASS), &mut ops);
    push_op(make_dup(), &mut ops);
    push_op(make_load(Kind::Reference, 1), &mut ops);
    push_op(
        make_get_field(&make_member(SLICE_VIEW_CLASS, "array", "Ljava/lang/Object;")),
        &mut ops,
    );
    push_op(make_load(Kind::Reference, 1), &mut ops);
    push_op(make_get_field(&make_member(SLICE_VIEW_CLASS, "offset", "I")), &mut ops);
    push_op(make_load(Kind::Reference, 3), &mut ops);
    push_op(make_get_field(&make_member(SLICE_VIEW_CLASS, "length", "I")), &mut ops);
    push_op(
        make_invoke_special(&make_member(UTF8_VIEW_CLASS, "<init>", "(Ljava/lang/Object;II)V")),
        &mut ops,
    );
    push_op(make_return(Kind::Reference), &mut ops);
    append_method(
        make_method(
            PUBLIC_STATIC,
            "encodeUtf8",
            "(ILorg/rustlang/runtime/SliceView;)Lorg/rustlang/runtime/Utf8View;",
            5,
            4,
            ops,
        ),
        jvm_methods,
    );
}

/// The method that tells whether a view of objects starts with the elements of another.
#[verifier::opaque]
pub open spec fn slice_starts_with(jvm_methods: Seq<JvmMethodModel>) -> Seq<JvmMethodModel> {
    let ops = no_ops();
    let ops = op_pushed(op_load(Kind::Reference, 1), ops);
    let ops = op_pushed(op_get_field(member(SLICE_VIEW_CLASS@, "length"@, "I"@)), ops);
    let ops = op_pushed(op_load(Kind::Reference, 0), ops);
    let ops = op_pushed(op_get_field(member(SLICE_VIEW_CLASS@, "length"@, "I"@)), ops);
    let ops = op_pushed(op_branch(Condition::IntIsGreater, 31), ops);
    let ops = op_pushed(op_push_int(0), ops);
    let ops = op_pushed(op_store(Kind::Int, 2), ops);
    let ops = op_pushed(op_load(Kind::Int, 2), ops);
    let ops = op_pushed(op_load(Kind::Reference, 1), ops);
    let ops = op_pushed(op_get_field(member(SLICE_VIEW_CLASS@, "length"@, "I"@)), ops);
    let ops = op_pushed(op_branch(Condition::IntIsAtLeast, 29), ops);
    let ops = op_pushed(op_load(Kind::Reference, 0), ops);
    let ops = op_pushed(
        op_get_field(member(SLICE_VIEW_CLASS@, "array"@, "Ljava/lang/Object;"@)),
        ops,
    );
    let ops = op_pushed(op_load(Kind::Reference, 0), ops);
    let ops = op_pushed(op_get_field(member(SLICE_VIEW_CLASS@, "offset"@, "I"@)), ops);
    let ops = op_pushed(op_load(Kind::Int, 2), ops);
    let ops = op_pushed(op_add_int(), ops);
    let ops = op_pushed(
        op_invoke_static(
            member(POINTER_CLASS@, "sliceGetObject"@, "(Ljava/lang/Object;I)Ljava/lang/Object;"@),
        ),
        ops,
    );
    let ops = op_pushed(op_load(Kind::Reference, 1), ops);
    let ops = op_pushed(
        op_get_field(member(SLICE_VIEW_CLASS@, "array"@, "Ljava/lang/Object;"@)),
        ops,
    );
    let ops = op_pushed(op_load(Kind::Reference, 1), ops);
    let ops = op_pushed(op_get_field(member(SLICE_VIEW_CLASS@, "offset"@, "I"@)), ops);
    let ops = op_pushed(op_load(Kind::Int, 2), ops);
    let ops = op_pushed(op_add_int(), ops);
    let ops = op_pushed(
        op_invoke_static(
            member(POINTER_CLASS@, "sliceGetObject"@, "(Ljava/lang/Object;I)Ljava/lang/Object;"@),
        ),
        ops,
    );
    let ops = op_pushed(
        op_invoke_static(
            member("java/util/Objects"@, "equals"@, "(Ljava/lang/Object;Ljava/lang/Object;)Z"@),
        ),
        ops,
    );
    let ops = op_pushed(op_branch(Condition::IsZero, 31), ops);
    let ops = op_pushed(op_increment(2, 1), ops);
    let ops = op_pushed(op_goto(7), ops);
    let ops = op_pushed(op_push_int(1), ops);
    let ops = op_pushed(op_return(Kind::Int), ops);
    let ops = op_pushed(op_push_int(0), ops);
    let ops = op_pushed(op_return(Kind::Int), ops);
    let jvm_methods = method_appended(
        method_with_ops(
            PUBLIC_STATIC,
            "startsWith"@,
            "(Lorg/rustlang/runtime/SliceView;Lorg/rustlang/runtime/SliceView;)Z"@,
            4,
            3,
            ops,
        ),
        jvm_methods,
    );
    jvm_methods
}

/// Adds the method that tells whether a view of objects starts with the elements of another.
pub fn push_slice_starts_with(jvm_methods: &mut Vec<JvmMethod>)
    ensures
        final(jvm_methods).deep_view() == slice_starts_with(old(jvm_methods).deep_view()),
{
    proof {
        reveal(slice_starts_with);
    }
    let mut ops = empty_ops();
    push_op(make_load(Kind::Reference, 1), &mut ops);
    push_op(make_get_field(&make_member(SLICE_VIEW_CLASS, "length", "I")), &mut ops);
    push_op(make_load(Kind::Reference, 0), &mut ops);
    push_op(make_get_field(&make_member(SLICE_VIEW_CLASS, "length", "I")), &mut ops);
    push_op(make_branch(Condition::IntIsGreater, 31), &mut ops);
    push_op(make_push_int(0), &mut ops);
    push_op(make_store(Kind::Int, 2), &mut ops);
    push_op(make_load(Kind::Int, 2), &mut ops);
    push_op(make_load(Kind::Reference, 1), &mut ops);
    push_op(make_get_field(&make_member(SLICE_VIEW_CLASS, "length", "I")), &mut ops);
    push_op(make_branch(Condition::IntIsAtLeast, 29), &mut ops);
    push_op(make_load(Kind::Reference, 0), &mut ops);
    push_op(
        make_get_field(&make_member(SLICE_VIEW_CLASS, "array", "Ljava/lang/Object;")),
        &mut ops,
    );
    push_op(make_load(Kind::Reference, 0), &mut ops);
    push_op(make_get_field(&make_member(SLICE_VIEW_CLASS, "offset", "I")), &mut ops);
    push_op(make_load(Kind::Int, 2), &mut ops);
    push_op(make_add_int(), &mut ops);
    push_op(
        make_invoke_static(
            &make_member(
                POINTER_CLASS,
                "sliceGetObject",
                "(Ljava/lang/Object;I)Ljava/lang/Object;",
            ),
        ),
        &mut ops,
    );
    push_op(make_load(Kind::Reference, 1), &mut ops);
    push_op(
        make_get_field(&make_member(SLICE_VIEW_CLASS, "array", "Ljava/lang/Object;")),
        &mut ops,
    );
    push_op(make_load(Kind::Reference, 1), &mut ops);
    push_op(make_get_field(&make_member(SLICE_VIEW_CLASS, "offset", "I")), &mut ops);
    push_op(make_load(Kind::Int, 2), &mut ops);
    push_op(make_add_int(), &mut ops);
    push_op(
        make_invoke_static(
            &make_member(
                POINTER_CLASS,
                "sliceGetObject",
                "(Ljava/lang/Object;I)Ljava/lang/Object;",
            ),
        ),
        &mut ops,
    );
    push_op(
        make_invoke_static(
            &make_member("java/util/Objects", "equals", "(Ljava/lang/Object;Ljava/lang/Object;)Z"),
        ),
        &mut ops,
    );
    push_op(make_branch(Condition::IsZero, 31), &mut ops);
    push_op(make_increment(2, 1), &mut ops);
    push_op(make_goto(7), &mut ops);
    push_op(make_push_int(1), &mut ops);
    push_op(make_return(Kind::Int), &mut ops);
    push_op(make_push_int(0), &mut ops);
    push_op(make_return(Kind::Int), &mut ops);
    append_method(
        make_method(
            PUBLIC_STATIC,
            "startsWith",
            "(Lorg/rustlang/runtime/SliceView;Lorg/rustlang/runtime/SliceView;)Z",
            4,
            3,
            ops,
        ),
        jvm_methods,
    );
}

/// The method that tells whether a view of bytes starts with the bytes of another.
#[verifier::opaque]
pub open spec fn slice_starts_with_i8(jvm_methods: Seq<JvmMethodModel>) -> Seq<JvmMethodModel> {
    let ops = no_ops();
    let ops = op_pushed(op_load(Kind::Reference, 1), ops);
    let ops = op_pushed(op_get_field(member(SLICE_VIEW_CLASS@, "length"@, "I"@)), ops);
    let ops = op_pushed(op_load(Kind::Reference, 0), ops);
    let ops = op_pushed(op_get_field(member(SLICE_VIEW_CLASS@, "length"@, "I"@)), ops);
    let ops = op_pushed(op_branch(Condition::IntIsGreater, 30), ops);
    let ops = op_pushed(op_push_int(0), ops);
    let ops = op_pushed(op_store(Kind::Int, 2), ops);
    let ops = op_pushed(op_load(Kind::Int, 2), ops);
    let ops = op_pushed(op_load(Kind::Reference, 1), ops);
    let ops = op_pushed(op_get_field(member(SLICE_VIEW_CLASS@, "length"@, "I"@)), ops);
    let ops = op_pushed(op_branch(Condition::IntIsAtLeast, 28), ops);
    let ops = op_pushed(op_load(Kind::Reference, 0), ops);
    let ops = op_pushed(
        op_get_field(member(SLICE_VIEW_CLASS@, "array"@, "Ljava/lang/Object;"@)),
        ops,
    );
    let ops = op_pushed(op_load(Kind::Reference, 0), ops);
    let ops = op_pushed(op_get_field(member(SLICE_VIEW_CLASS@, "offset"@, "I"@)), ops);
    let ops = op_pushed(op_load(Kind::Int, 2), ops);
    let ops = op_pushed(op_add_int(), ops);
    let ops = op_pushed(
        op_invoke_static(member(POINTER_CLASS@, "sliceGetI8"@, "(Ljava/lang/Object;I)B"@)),
        ops,
    );
    let ops = op_pushed(op_load(Kind::Reference, 1), ops);
    let ops = op_pushed(
        op_get_field(member(SLICE_VIEW_CLASS@, "array"@, "Ljava/lang/Object;"@)),
        ops,
    );
    let ops = op_pushed(op_load(Kind::Reference, 1), ops);
    let ops = op_pushed(op_get_field(member(SLICE_VIEW_CLASS@, "offset"@, "I"@)), ops);
    let ops = op_pushed(op_load(Kind::Int, 2), ops);
    let ops = op_pushed(op_add_int(), ops);
    let ops = op_pushed(
        op_invoke_static(member(POINTER_CLASS@, "sliceGetI8"@, "(Ljava/lang/Object;I)B"@)),
        ops,
    );
    let ops = op_pushed(op_branch(Condition::IntsDiffer, 30), ops);
    let ops = op_pushed(op_increment(2, 1), ops);
    let ops = op_pushed(op_goto(7), ops);
    let ops = op_pushed(op_push_int(1), ops);
    let ops = op_pushed(op_return(Kind::Int), ops);
    let ops = op_pushed(op_push_int(0), ops);
    let ops = op_pushed(op_return(Kind::Int), ops);
    let jvm_methods = method_appended(
        method_with_ops(
            PUBLIC_STATIC,
            "startsWithI8"@,
            "(Lorg/rustlang/runtime/SliceView;Lorg/rustlang/runtime/SliceView;)Z"@,
            4,
            3,
            ops,
        ),
        jvm_methods,
    );
    jvm_methods
}

/// Adds the method that tells whether a view of bytes starts with the bytes of another.
pub fn push_slice_starts_with_i8(jvm_methods: &mut Vec<JvmMethod>)
    ensures
        final(jvm_methods).deep_view() == slice_starts_with_i8(old(jvm_methods).deep_view()),
{
    proof {
        reveal(slice_starts_with_i8);
    }
    let mut ops = empty_ops();
    push_op(make_load(Kind::Reference, 1), &mut ops);
    push_op(make_get_field(&make_member(SLICE_VIEW_CLASS, "length", "I")), &mut ops);
    push_op(make_load(Kind::Reference, 0), &mut ops);
    push_op(make_get_field(&make_member(SLICE_VIEW_CLASS, "length", "I")), &mut ops);
    push_op(make_branch(Condition::IntIsGreater, 30), &mut ops);
    push_op(make_push_int(0), &mut ops);
    push_op(make_store(Kind::Int, 2), &mut ops);
    push_op(make_load(Kind::Int, 2), &mut ops);
    push_op(make_load(Kind::Reference, 1), &mut ops);
    push_op(make_get_field(&make_member(SLICE_VIEW_CLASS, "length", "I")), &mut ops);
    push_op(make_branch(Condition::IntIsAtLeast, 28), &mut ops);
    push_op(make_load(Kind::Reference, 0), &mut ops);
    push_op(
        make_get_field(&make_member(SLICE_VIEW_CLASS, "array", "Ljava/lang/Object;")),
        &mut ops,
    );
    push_op(make_load(Kind::Reference, 0), &mut ops);
    push_op(make_get_field(&make_member(SLICE_VIEW_CLASS, "offset", "I")), &mut ops);
    push_op(make_load(Kind::Int, 2), &mut ops);
    push_op(make_add_int(), &mut ops);
    push_op(
        make_invoke_static(&make_member(POINTER_CLASS, "sliceGetI8", "(Ljava/lang/Object;I)B")),
        &mut ops,
    );
    push_op(make_load(Kind::Reference, 1), &mut ops);
    push_op(
        make_get_field(&make_member(SLICE_VIEW_CLASS, "array", "Ljava/lang/Object;")),
        &mut ops,
    );
    push_op(make_load(Kind::Reference, 1), &mut ops);
    push_op(make_get_field(&make_member(SLICE_VIEW_CLASS, "offset", "I")), &mut ops);
    push_op(make_load(Kind::Int, 2), &mut ops);
    push_op(make_add_int(), &mut ops);
    push_op(
        make_invoke_static(&make_member(POINTER_CLASS, "sliceGetI8", "(Ljava/lang/Object;I)B")),
        &mut ops,
    );
    push_op(make_branch(Condition::IntsDiffer, 30), &mut ops);
    push_op(make_increment(2, 1), &mut ops);
    push_op(make_goto(7), &mut ops);
    push_op(make_push_int(1), &mut ops);
    push_op(make_return(Kind::Int), &mut ops);
    push_op(make_push_int(0), &mut ops);
    push_op(make_return(Kind::Int), &mut ops);
    append_method(
        make_method(
            PUBLIC_STATIC,
            "startsWithI8",
            "(Lorg/rustlang/runtime/SliceView;Lorg/rustlang/runtime/SliceView;)Z",
            4,
            3,
            ops,
        ),
        jvm_methods,
    );
}

/// The method that tells whether a view of numbers starts with the numbers of another.
#[verifier::opaque]
pub open spec fn slice_starts_with_i32(jvm_methods: Seq<JvmMethodModel>) -> Seq<JvmMethodModel> {
    let ops = no_ops();
    let ops = op_pushed(op_load(Kind::Reference, 1), ops);
    let ops = op_pushed(op_get_field(member(SLICE_VIEW_CLASS@, "length"@, "I"@)), ops);
    let ops = op_pushed(op_load(Kind::Reference, 0), ops);
    let ops = op_pushed(op_get_field(member(SLICE_VIEW_CLASS@, "length"@, "I"@)), ops);
    let ops = op_pushed(op_branch(Condition::IntIsGreater, 30), ops);
    let ops = op_pushed(op_push_int(0), ops);
    let ops = op_pushed(op_store(Kind::Int, 2), ops);
    let ops = op_pushed(op_load(Kind::Int, 2), ops);
    let ops = op_pushed(op_load(Kind::Reference, 1), ops);
    let ops = op_pushed(op_get_field(member(SLICE_VIEW_CLASS@, "length"@, "I"@)), ops);
    let ops = op_pushed(op_branch(Condition::IntIsAtLeast, 28), ops);
    let ops = op_pushed(op_load(Kind::Reference, 0), ops);
    let ops = op_pushed(
        op_get_field(member(SLICE_VIEW_CLASS@, "array"@, "Ljava/lang/Object;"@)),
        ops,
    );
    let ops = op_pushed(op_load(Kind::Reference, 0), ops);
    let ops = op_pushed(op_get_field(member(SLICE_VIEW_CLASS@, "offset"@, "I"@)), ops);
    let ops = op_pushed(op_load(Kind::Int, 2), ops);
    let ops = op_pushed(op_add_int(), ops);
    let ops = op_pushed(
        op_invoke_static(member(POINTER_CLASS@, "sliceGetI32"@, "(Ljava/lang/Object;I)I"@)),
        ops,
    );
    let ops = op_pushed(op_load(Kind::Reference, 1), ops);
    let ops = op_pushed(
        op_get_field(member(SLICE_VIEW_CLASS@, "array"@, "Ljava/lang/Object;"@)),
        ops,
    );
    let ops = op_pushed(op_load(Kind::Reference, 1), ops);
    let ops = op_pushed(op_get_field(member(SLICE_VIEW_CLASS@, "offset"@, "I"@)), ops);
    let ops = op_pushed(op_load(Kind::Int, 2), ops);
    let ops = op_pushed(op_add_int(), ops);
    let ops = op_pushed(
        op_invoke_static(member(POINTER_CLASS@, "sliceGetI32"@, "(Ljava/lang/Object;I)I"@)),
        ops,
    );
    let ops = op_pushed(op_branch(Condition::IntsDiffer, 30), ops);
    let ops = op_pushed(op_increment(2, 1), ops);
    let ops = op_pushed(op_goto(7), ops);
    let ops = op_pushed(op_push_int(1), ops);
    let ops = op_pushed(op_return(Kind::Int), ops);
    let ops = op_pushed(op_push_int(0), ops);
    let ops = op_pushed(op_return(Kind::Int), ops);
    let jvm_methods = method_appended(
        method_with_ops(
            PUBLIC_STATIC,
            "startsWithI32"@,
            "(Lorg/rustlang/runtime/SliceView;Lorg/rustlang/runtime/SliceView;)Z"@,
            4,
            3,
            ops,
        ),
        jvm_methods,
    );
    jvm_methods
}

/// Adds the method that tells whether a view of numbers starts with the numbers of another.
pub fn push_slice_starts_with_i32(jvm_methods: &mut Vec<JvmMethod>)
    ensures
        final(jvm_methods).deep_view() == slice_starts_with_i32(old(jvm_methods).deep_view()),
{
    proof {
        reveal(slice_starts_with_i32);
    }
    let mut ops = empty_ops();
    push_op(make_load(Kind::Reference, 1), &mut ops);
    push_op(make_get_field(&make_member(SLICE_VIEW_CLASS, "length", "I")), &mut ops);
    push_op(make_load(Kind::Reference, 0), &mut ops);
    push_op(make_get_field(&make_member(SLICE_VIEW_CLASS, "length", "I")), &mut ops);
    push_op(make_branch(Condition::IntIsGreater, 30), &mut ops);
    push_op(make_push_int(0), &mut ops);
    push_op(make_store(Kind::Int, 2), &mut ops);
    push_op(make_load(Kind::Int, 2), &mut ops);
    push_op(make_load(Kind::Reference, 1), &mut ops);
    push_op(make_get_field(&make_member(SLICE_VIEW_CLASS, "length", "I")), &mut ops);
    push_op(make_branch(Condition::IntIsAtLeast, 28), &mut ops);
    push_op(make_load(Kind::Reference, 0), &mut ops);
    push_op(
        make_get_field(&make_member(SLICE_VIEW_CLASS, "array", "Ljava/lang/Object;")),
        &mut ops,
    );
    push_op(make_load(Kind::Reference, 0), &mut ops);
    push_op(make_get_field(&make_member(SLICE_VIEW_CLASS, "offset", "I")), &mut ops);
    push_op(make_load(Kind::Int, 2), &mut ops);
    push_op(make_add_int(), &mut ops);
    push_op(
        make_invoke_static(&make_member(POINTER_CLASS, "sliceGetI32", "(Ljava/lang/Object;I)I")),
        &mut ops,
    );
    push_op(make_load(Kind::Reference, 1), &mut ops);
    push_op(
        make_get_field(&make_member(SLICE_VIEW_CLASS, "array", "Ljava/lang/Object;")),
        &mut ops,
    );
    push_op(make_load(Kind::Reference, 1), &mut ops);
    push_op(make_get_field(&make_member(SLICE_VIEW_CLASS, "offset", "I")), &mut ops);
    push_op(make_load(Kind::Int, 2), &mut ops);
    push_op(make_add_int(), &mut ops);
    push_op(
        make_invoke_static(&make_member(POINTER_CLASS, "sliceGetI32", "(Ljava/lang/Object;I)I")),
        &mut ops,
    );
    push_op(make_branch(Condition::IntsDiffer, 30), &mut ops);
    push_op(make_increment(2, 1), &mut ops);
    push_op(make_goto(7), &mut ops);
    push_op(make_push_int(1), &mut ops);
    push_op(make_return(Kind::Int), &mut ops);
    push_op(make_push_int(0), &mut ops);
    push_op(make_return(Kind::Int), &mut ops);
    append_method(
        make_method(
            PUBLIC_STATIC,
            "startsWithI32",
            "(Lorg/rustlang/runtime/SliceView;Lorg/rustlang/runtime/SliceView;)Z",
            4,
            3,
            ops,
        ),
        jvm_methods,
    );
}

/// The method that makes a text with a length of 32 bits.
#[verifier::opaque]
pub open spec fn text_constructor(jvm_methods: Seq<JvmMethodModel>) -> Seq<JvmMethodModel> {
    let ops = no_ops();
    let ops = op_pushed(op_load(Kind::Reference, 0), ops);
    let ops = op_pushed(op_load(Kind::Reference, 1), ops);
    let ops = op_pushed(op_load(Kind::Int, 2), ops);
    let ops = op_pushed(op_load(Kind::Int, 3), ops);
    let ops = op_pushed(
        op_invoke_special(member(SLICE_VIEW_CLASS@, "<init>"@, "(Ljava/lang/Object;II)V"@)),
        ops,
    );
    let ops = op_pushed(op_return(Kind::Nothing), ops);
    let jvm_methods = method_appended(
        method_with_ops(PUBLIC, "<init>"@, "(Ljava/lang/Object;II)V"@, 4, 4, ops),
        jvm_methods,
    );
    jvm_methods
}

/// Adds the method that makes a text with a length of 32 bits.
pub fn push_text_constructor(jvm_methods: &mut Vec<JvmMethod>)
    ensures
        final(jvm_methods).deep_view() == text_constructor(old(jvm_methods).deep_view()),
{
    proof {
        reveal(text_constructor);
    }
    let mut ops = empty_ops();
    push_op(make_load(Kind::Reference, 0), &mut ops);
    push_op(make_load(Kind::Reference, 1), &mut ops);
    push_op(make_load(Kind::Int, 2), &mut ops);
    push_op(make_load(Kind::Int, 3), &mut ops);
    push_op(
        make_invoke_special(&make_member(SLICE_VIEW_CLASS, "<init>", "(Ljava/lang/Object;II)V")),
        &mut ops,
    );
    push_op(make_return(Kind::Nothing), &mut ops);
    append_method(make_method(PUBLIC, "<init>", "(Ljava/lang/Object;II)V", 4, 4, ops), jvm_methods);
}

/// The method that makes a text with a length of 64 bits.
#[verifier::opaque]
pub open spec fn text_long_constructor(jvm_methods: Seq<JvmMethodModel>) -> Seq<JvmMethodModel> {
    let ops = no_ops();
    let ops = op_pushed(op_load(Kind::Reference, 0), ops);
    let ops = op_pushed(op_load(Kind::Reference, 1), ops);
    let ops = op_pushed(op_load(Kind::Int, 2), ops);
    let ops = op_pushed(op_load(Kind::Long, 3), ops);
    let ops = op_pushed(
        op_invoke_special(member(SLICE_VIEW_CLASS@, "<init>"@, "(Ljava/lang/Object;IJ)V"@)),
        ops,
    );
    let ops = op_pushed(op_return(Kind::Nothing), ops);
    let jvm_methods = method_appended(
        method_with_ops(PUBLIC, "<init>"@, "(Ljava/lang/Object;IJ)V"@, 5, 5, ops),
        jvm_methods,
    );
    jvm_methods
}

/// Adds the method that makes a text with a length of 64 bits.
pub fn push_text_long_constructor(jvm_methods: &mut Vec<JvmMethod>)
    ensures
        final(jvm_methods).deep_view() == text_long_constructor(old(jvm_methods).deep_view()),
{
    proof {
        reveal(text_long_constructor);
    }
    let mut ops = empty_ops();
    push_op(make_load(Kind::Reference, 0), &mut ops);
    push_op(make_load(Kind::Reference, 1), &mut ops);
    push_op(make_load(Kind::Int, 2), &mut ops);
    push_op(make_load(Kind::Long, 3), &mut ops);
    push_op(
        make_invoke_special(&make_member(SLICE_VIEW_CLASS, "<init>", "(Ljava/lang/Object;IJ)V")),
        &mut ops,
    );
    push_op(make_return(Kind::Nothing), &mut ops);
    append_method(make_method(PUBLIC, "<init>", "(Ljava/lang/Object;IJ)V", 5, 5, ops), jvm_methods);
}

/// The method that makes a text of a string.
#[verifier::opaque]
pub open spec fn text_from_java(jvm_methods: Seq<JvmMethodModel>) -> Seq<JvmMethodModel> {
    let ops = no_ops();
    let ops = op_pushed(op_load(Kind::Reference, 0), ops);
    let ops = op_pushed(op_push_text(UTF8_VIEW_CLASS@), ops);
    let ops = op_pushed(
        op_invoke_static(
            member(
                POINTER_CLASS@,
                "stringView"@,
                "(Ljava/lang/String;Ljava/lang/String;)Ljava/lang/Object;"@,
            ),
        ),
        ops,
    );
    let ops = op_pushed(op_check_cast(UTF8_VIEW_CLASS@), ops);
    let ops = op_pushed(op_return(Kind::Reference), ops);
    let jvm_methods = method_appended(
        method_with_ops(
            PUBLIC_STATIC,
            "fromJavaString"@,
            "(Ljava/lang/String;)Lorg/rustlang/runtime/Utf8View;"@,
            2,
            1,
            ops,
        ),
        jvm_methods,
    );
    jvm_methods
}

/// Adds the method that makes a text of a string.
pub fn push_text_from_java(jvm_methods: &mut Vec<JvmMethod>)
    ensures
        final(jvm_methods).deep_view() == text_from_java(old(jvm_methods).deep_view()),
{
    proof {
        reveal(text_from_java);
    }
    let mut ops = empty_ops();
    push_op(make_load(Kind::Reference, 0), &mut ops);
    push_op(make_push_text(UTF8_VIEW_CLASS), &mut ops);
    push_op(
        make_invoke_static(
            &make_member(
                POINTER_CLASS,
                "stringView",
                "(Ljava/lang/String;Ljava/lang/String;)Ljava/lang/Object;",
            ),
        ),
        &mut ops,
    );
    push_op(make_check_cast(UTF8_VIEW_CLASS), &mut ops);
    push_op(make_return(Kind::Reference), &mut ops);
    append_method(
        make_method(
            PUBLIC_STATIC,
            "fromJavaString",
            "(Ljava/lang/String;)Lorg/rustlang/runtime/Utf8View;",
            2,
            1,
            ops,
        ),
        jvm_methods,
    );
}

/// The method that makes a string of a text.
#[verifier::opaque]
pub open spec fn text_to_java(jvm_methods: Seq<JvmMethodModel>) -> Seq<JvmMethodModel> {
    let ops = no_ops();
    let ops = op_pushed(op_load(Kind::Reference, 0), ops);
    let ops = op_pushed(
        op_invoke_static(
            member(
                SLICE_VIEW_CLASS@,
                "toUtf8String"@,
                "(Lorg/rustlang/runtime/SliceView;)Ljava/lang/String;"@,
            ),
        ),
        ops,
    );
    let ops = op_pushed(op_return(Kind::Reference), ops);
    let jvm_methods = method_appended(
        method_with_ops(
            PUBLIC_STATIC,
            "toJavaString"@,
            "(Lorg/rustlang/runtime/Utf8View;)Ljava/lang/String;"@,
            1,
            1,
            ops,
        ),
        jvm_methods,
    );
    jvm_methods
}

/// Adds the method that makes a string of a text.
pub fn push_text_to_java(jvm_methods: &mut Vec<JvmMethod>)
    ensures
        final(jvm_methods).deep_view() == text_to_java(old(jvm_methods).deep_view()),
{
    proof {
        reveal(text_to_java);
    }
    let mut ops = empty_ops();
    push_op(make_load(Kind::Reference, 0), &mut ops);
    push_op(
        make_invoke_static(
            &make_member(
                SLICE_VIEW_CLASS,
                "toUtf8String",
                "(Lorg/rustlang/runtime/SliceView;)Ljava/lang/String;",
            ),
        ),
        &mut ops,
    );
    push_op(make_return(Kind::Reference), &mut ops);
    append_method(
        make_method(
            PUBLIC_STATIC,
            "toJavaString",
            "(Lorg/rustlang/runtime/Utf8View;)Ljava/lang/String;",
            1,
            1,
            ops,
        ),
        jvm_methods,
    );
}

/// The method that shows a text as a view of its bytes.
#[verifier::opaque]
pub open spec fn text_as_slice(jvm_methods: Seq<JvmMethodModel>) -> Seq<JvmMethodModel> {
    let ops = no_ops();
    let ops = op_pushed(op_load(Kind::Reference, 0), ops);
    let ops = op_pushed(op_return(Kind::Reference), ops);
    let jvm_methods = method_appended(
        method_with_ops(
            PUBLIC_STATIC,
            "asSlice"@,
            "(Lorg/rustlang/runtime/Utf8View;)Lorg/rustlang/runtime/SliceView;"@,
            1,
            1,
            ops,
        ),
        jvm_methods,
    );
    jvm_methods
}

/// Adds the method that shows a text as a view of its bytes.
pub fn push_text_as_slice(jvm_methods: &mut Vec<JvmMethod>)
    ensures
        final(jvm_methods).deep_view() == text_as_slice(old(jvm_methods).deep_view()),
{
    proof {
        reveal(text_as_slice);
    }
    let mut ops = empty_ops();
    push_op(make_load(Kind::Reference, 0), &mut ops);
    push_op(make_return(Kind::Reference), &mut ops);
    append_method(
        make_method(
            PUBLIC_STATIC,
            "asSlice",
            "(Lorg/rustlang/runtime/Utf8View;)Lorg/rustlang/runtime/SliceView;",
            1,
            1,
            ops,
        ),
        jvm_methods,
    );
}

/// The method that makes a text of a view of bytes.
#[verifier::opaque]
pub open spec fn text_from_slice(jvm_methods: Seq<JvmMethodModel>) -> Seq<JvmMethodModel> {
    let ops = no_ops();
    let ops = op_pushed(op_new(UTF8_VIEW_CLASS@), ops);
    let ops = op_pushed(op_dup(), ops);
    let ops = op_pushed(op_load(Kind::Reference, 0), ops);
    let ops = op_pushed(
        op_get_field(member(SLICE_VIEW_CLASS@, "array"@, "Ljava/lang/Object;"@)),
        ops,
    );
    let ops = op_pushed(op_load(Kind::Reference, 0), ops);
    let ops = op_pushed(op_get_field(member(SLICE_VIEW_CLASS@, "offset"@, "I"@)), ops);
    let ops = op_pushed(op_load(Kind::Reference, 0), ops);
    let ops = op_pushed(op_get_field(member(SLICE_VIEW_CLASS@, "length"@, "I"@)), ops);
    let ops = op_pushed(
        op_invoke_special(member(UTF8_VIEW_CLASS@, "<init>"@, "(Ljava/lang/Object;II)V"@)),
        ops,
    );
    let ops = op_pushed(op_return(Kind::Reference), ops);
    let jvm_methods = method_appended(
        method_with_ops(
            PUBLIC_STATIC,
            "fromSlice"@,
            "(Lorg/rustlang/runtime/SliceView;)Lorg/rustlang/runtime/Utf8View;"@,
            5,
            1,
            ops,
        ),
        jvm_methods,
    );
    jvm_methods
}

/// Adds the method that makes a text of a view of bytes.
pub fn push_text_from_slice(jvm_methods: &mut Vec<JvmMethod>)
    ensures
        final(jvm_methods).deep_view() == text_from_slice(old(jvm_methods).deep_view()),
{
    proof {
        reveal(text_from_slice);
    }
    let mut ops = empty_ops();
    push_op(make_new(UTF8_VIEW_CLASS), &mut ops);
    push_op(make_dup(), &mut ops);
    push_op(make_load(Kind::Reference, 0), &mut ops);
    push_op(
        make_get_field(&make_member(SLICE_VIEW_CLASS, "array", "Ljava/lang/Object;")),
        &mut ops,
    );
    push_op(make_load(Kind::Reference, 0), &mut ops);
    push_op(make_get_field(&make_member(SLICE_VIEW_CLASS, "offset", "I")), &mut ops);
    push_op(make_load(Kind::Reference, 0), &mut ops);
    push_op(make_get_field(&make_member(SLICE_VIEW_CLASS, "length", "I")), &mut ops);
    push_op(
        make_invoke_special(&make_member(UTF8_VIEW_CLASS, "<init>", "(Ljava/lang/Object;II)V")),
        &mut ops,
    );
    push_op(make_return(Kind::Reference), &mut ops);
    append_method(
        make_method(
            PUBLIC_STATIC,
            "fromSlice",
            "(Lorg/rustlang/runtime/SliceView;)Lorg/rustlang/runtime/Utf8View;",
            5,
            1,
            ops,
        ),
        jvm_methods,
    );
}

/// The method that returns the number of bytes of a text.
#[verifier::opaque]
pub open spec fn text_len(jvm_methods: Seq<JvmMethodModel>) -> Seq<JvmMethodModel> {
    let ops = no_ops();
    let ops = op_pushed(op_load(Kind::Reference, 0), ops);
    let ops = op_pushed(op_get_field(member(SLICE_VIEW_CLASS@, "length"@, "I"@)), ops);
    let ops = op_pushed(op_int_to_long(), ops);
    let ops = op_pushed(op_return(Kind::Long), ops);
    let jvm_methods = method_appended(
        method_with_ops(PUBLIC_STATIC, "len"@, "(Lorg/rustlang/runtime/Utf8View;)J"@, 2, 1, ops),
        jvm_methods,
    );
    jvm_methods
}

/// Adds the method that returns the number of bytes of a text.
pub fn push_text_len(jvm_methods: &mut Vec<JvmMethod>)
    ensures
        final(jvm_methods).deep_view() == text_len(old(jvm_methods).deep_view()),
{
    proof {
        reveal(text_len);
    }
    let mut ops = empty_ops();
    push_op(make_load(Kind::Reference, 0), &mut ops);
    push_op(make_get_field(&make_member(SLICE_VIEW_CLASS, "length", "I")), &mut ops);
    push_op(make_int_to_long(), &mut ops);
    push_op(make_return(Kind::Long), &mut ops);
    append_method(
        make_method(PUBLIC_STATIC, "len", "(Lorg/rustlang/runtime/Utf8View;)J", 2, 1, ops),
        jvm_methods,
    );
}

/// The method that tells whether a text starts with another.
#[verifier::opaque]
pub open spec fn text_starts_with(jvm_methods: Seq<JvmMethodModel>) -> Seq<JvmMethodModel> {
    let ops = no_ops();
    let ops = op_pushed(op_load(Kind::Reference, 1), ops);
    let ops = op_pushed(op_get_field(member(SLICE_VIEW_CLASS@, "length"@, "I"@)), ops);
    let ops = op_pushed(op_load(Kind::Reference, 0), ops);
    let ops = op_pushed(op_get_field(member(SLICE_VIEW_CLASS@, "length"@, "I"@)), ops);
    let ops = op_pushed(op_branch(Condition::IntIsGreater, 30), ops);
    let ops = op_pushed(op_push_int(0), ops);
    let ops = op_pushed(op_store(Kind::Int, 2), ops);
    let ops = op_pushed(op_load(Kind::Int, 2), ops);
    let ops = op_pushed(op_load(Kind::Reference, 1), ops);
    let ops = op_pushed(op_get_field(member(SLICE_VIEW_CLASS@, "length"@, "I"@)), ops);
    let ops = op_pushed(op_branch(Condition::IntIsAtLeast, 28), ops);
    let ops = op_pushed(op_load(Kind::Reference, 0), ops);
    let ops = op_pushed(
        op_get_field(member(SLICE_VIEW_CLASS@, "array"@, "Ljava/lang/Object;"@)),
        ops,
    );
    let ops = op_pushed(op_load(Kind::Reference, 0), ops);
    let ops = op_pushed(op_get_field(member(SLICE_VIEW_CLASS@, "offset"@, "I"@)), ops);
    let ops = op_pushed(op_load(Kind::Int, 2), ops);
    let ops = op_pushed(op_add_int(), ops);
    let ops = op_pushed(
        op_invoke_static(member(POINTER_CLASS@, "sliceGetI8"@, "(Ljava/lang/Object;I)B"@)),
        ops,
    );
    let ops = op_pushed(op_load(Kind::Reference, 1), ops);
    let ops = op_pushed(
        op_get_field(member(SLICE_VIEW_CLASS@, "array"@, "Ljava/lang/Object;"@)),
        ops,
    );
    let ops = op_pushed(op_load(Kind::Reference, 1), ops);
    let ops = op_pushed(op_get_field(member(SLICE_VIEW_CLASS@, "offset"@, "I"@)), ops);
    let ops = op_pushed(op_load(Kind::Int, 2), ops);
    let ops = op_pushed(op_add_int(), ops);
    let ops = op_pushed(
        op_invoke_static(member(POINTER_CLASS@, "sliceGetI8"@, "(Ljava/lang/Object;I)B"@)),
        ops,
    );
    let ops = op_pushed(op_branch(Condition::IntsDiffer, 30), ops);
    let ops = op_pushed(op_increment(2, 1), ops);
    let ops = op_pushed(op_goto(7), ops);
    let ops = op_pushed(op_push_int(1), ops);
    let ops = op_pushed(op_return(Kind::Int), ops);
    let ops = op_pushed(op_push_int(0), ops);
    let ops = op_pushed(op_return(Kind::Int), ops);
    let jvm_methods = method_appended(
        method_with_ops(
            PUBLIC_STATIC,
            "startsWith"@,
            "(Lorg/rustlang/runtime/Utf8View;Lorg/rustlang/runtime/Utf8View;)Z"@,
            4,
            3,
            ops,
        ),
        jvm_methods,
    );
    jvm_methods
}

/// Adds the method that tells whether a text starts with another.
pub fn push_text_starts_with(jvm_methods: &mut Vec<JvmMethod>)
    ensures
        final(jvm_methods).deep_view() == text_starts_with(old(jvm_methods).deep_view()),
{
    proof {
        reveal(text_starts_with);
    }
    let mut ops = empty_ops();
    push_op(make_load(Kind::Reference, 1), &mut ops);
    push_op(make_get_field(&make_member(SLICE_VIEW_CLASS, "length", "I")), &mut ops);
    push_op(make_load(Kind::Reference, 0), &mut ops);
    push_op(make_get_field(&make_member(SLICE_VIEW_CLASS, "length", "I")), &mut ops);
    push_op(make_branch(Condition::IntIsGreater, 30), &mut ops);
    push_op(make_push_int(0), &mut ops);
    push_op(make_store(Kind::Int, 2), &mut ops);
    push_op(make_load(Kind::Int, 2), &mut ops);
    push_op(make_load(Kind::Reference, 1), &mut ops);
    push_op(make_get_field(&make_member(SLICE_VIEW_CLASS, "length", "I")), &mut ops);
    push_op(make_branch(Condition::IntIsAtLeast, 28), &mut ops);
    push_op(make_load(Kind::Reference, 0), &mut ops);
    push_op(
        make_get_field(&make_member(SLICE_VIEW_CLASS, "array", "Ljava/lang/Object;")),
        &mut ops,
    );
    push_op(make_load(Kind::Reference, 0), &mut ops);
    push_op(make_get_field(&make_member(SLICE_VIEW_CLASS, "offset", "I")), &mut ops);
    push_op(make_load(Kind::Int, 2), &mut ops);
    push_op(make_add_int(), &mut ops);
    push_op(
        make_invoke_static(&make_member(POINTER_CLASS, "sliceGetI8", "(Ljava/lang/Object;I)B")),
        &mut ops,
    );
    push_op(make_load(Kind::Reference, 1), &mut ops);
    push_op(
        make_get_field(&make_member(SLICE_VIEW_CLASS, "array", "Ljava/lang/Object;")),
        &mut ops,
    );
    push_op(make_load(Kind::Reference, 1), &mut ops);
    push_op(make_get_field(&make_member(SLICE_VIEW_CLASS, "offset", "I")), &mut ops);
    push_op(make_load(Kind::Int, 2), &mut ops);
    push_op(make_add_int(), &mut ops);
    push_op(
        make_invoke_static(&make_member(POINTER_CLASS, "sliceGetI8", "(Ljava/lang/Object;I)B")),
        &mut ops,
    );
    push_op(make_branch(Condition::IntsDiffer, 30), &mut ops);
    push_op(make_increment(2, 1), &mut ops);
    push_op(make_goto(7), &mut ops);
    push_op(make_push_int(1), &mut ops);
    push_op(make_return(Kind::Int), &mut ops);
    push_op(make_push_int(0), &mut ops);
    push_op(make_return(Kind::Int), &mut ops);
    append_method(
        make_method(
            PUBLIC_STATIC,
            "startsWith",
            "(Lorg/rustlang/runtime/Utf8View;Lorg/rustlang/runtime/Utf8View;)Z",
            4,
            3,
            ops,
        ),
        jvm_methods,
    );
}

/// The method that tells whether two texts are the same.
#[verifier::opaque]
pub open spec fn text_equals(jvm_methods: Seq<JvmMethodModel>) -> Seq<JvmMethodModel> {
    let ops = no_ops();
    let ops = op_pushed(op_load(Kind::Reference, 0), ops);
    let ops = op_pushed(op_get_field(member(SLICE_VIEW_CLASS@, "length"@, "I"@)), ops);
    let ops = op_pushed(op_load(Kind::Reference, 1), ops);
    let ops = op_pushed(op_get_field(member(SLICE_VIEW_CLASS@, "length"@, "I"@)), ops);
    let ops = op_pushed(op_branch(Condition::IntsDiffer, 9), ops);
    let ops = op_pushed(op_load(Kind::Reference, 0), ops);
    let ops = op_pushed(op_load(Kind::Reference, 1), ops);
    let ops = op_pushed(
        op_invoke_static(
            member(
                UTF8_VIEW_CLASS@,
                "startsWith"@,
                "(Lorg/rustlang/runtime/Utf8View;Lorg/rustlang/runtime/Utf8View;)Z"@,
            ),
        ),
        ops,
    );
    let ops = op_pushed(op_return(Kind::Int), ops);
    let ops = op_pushed(op_push_int(0), ops);
    let ops = op_pushed(op_return(Kind::Int), ops);
    let jvm_methods = method_appended(
        method_with_ops(
            PUBLIC_STATIC,
            "equals"@,
            "(Lorg/rustlang/runtime/Utf8View;Lorg/rustlang/runtime/Utf8View;)Z"@,
            2,
            2,
            ops,
        ),
        jvm_methods,
    );
    jvm_methods
}

/// Adds the method that tells whether two texts are the same.
pub fn push_text_equals(jvm_methods: &mut Vec<JvmMethod>)
    ensures
        final(jvm_methods).deep_view() == text_equals(old(jvm_methods).deep_view()),
{
    proof {
        reveal(text_equals);
    }
    let mut ops = empty_ops();
    push_op(make_load(Kind::Reference, 0), &mut ops);
    push_op(make_get_field(&make_member(SLICE_VIEW_CLASS, "length", "I")), &mut ops);
    push_op(make_load(Kind::Reference, 1), &mut ops);
    push_op(make_get_field(&make_member(SLICE_VIEW_CLASS, "length", "I")), &mut ops);
    push_op(make_branch(Condition::IntsDiffer, 9), &mut ops);
    push_op(make_load(Kind::Reference, 0), &mut ops);
    push_op(make_load(Kind::Reference, 1), &mut ops);
    push_op(
        make_invoke_static(
            &make_member(
                UTF8_VIEW_CLASS,
                "startsWith",
                "(Lorg/rustlang/runtime/Utf8View;Lorg/rustlang/runtime/Utf8View;)Z",
            ),
        ),
        &mut ops,
    );
    push_op(make_return(Kind::Int), &mut ops);
    push_op(make_push_int(0), &mut ops);
    push_op(make_return(Kind::Int), &mut ops);
    append_method(
        make_method(
            PUBLIC_STATIC,
            "equals",
            "(Lorg/rustlang/runtime/Utf8View;Lorg/rustlang/runtime/Utf8View;)Z",
            2,
            2,
            ops,
        ),
        jvm_methods,
    );
}

/// The method that tells whether a text starts with a character.
#[verifier::opaque]
pub open spec fn text_starts_with_char(jvm_methods: Seq<JvmMethodModel>) -> Seq<JvmMethodModel> {
    let ops = no_ops();
    let ops = op_pushed(op_load(Kind::Reference, 0), ops);
    let ops = op_pushed(
        op_invoke_static(
            member(
                UTF8_VIEW_CLASS@,
                "toJavaString"@,
                "(Lorg/rustlang/runtime/Utf8View;)Ljava/lang/String;"@,
            ),
        ),
        ops,
    );
    let ops = op_pushed(op_load(Kind::Int, 1), ops);
    let ops = op_pushed(
        op_invoke_static(member("java/lang/Character"@, "toChars"@, "(I)[C"@)),
        ops,
    );
    let ops = op_pushed(
        op_invoke_static(member("java/lang/String"@, "valueOf"@, "([C)Ljava/lang/String;"@)),
        ops,
    );
    let ops = op_pushed(
        op_invoke_virtual(member("java/lang/String"@, "startsWith"@, "(Ljava/lang/String;)Z"@)),
        ops,
    );
    let ops = op_pushed(op_return(Kind::Int), ops);
    let jvm_methods = method_appended(
        method_with_ops(
            PUBLIC_STATIC,
            "startsWithChar"@,
            "(Lorg/rustlang/runtime/Utf8View;I)Z"@,
            2,
            2,
            ops,
        ),
        jvm_methods,
    );
    jvm_methods
}

/// Adds the method that tells whether a text starts with a character.
pub fn push_text_starts_with_char(jvm_methods: &mut Vec<JvmMethod>)
    ensures
        final(jvm_methods).deep_view() == text_starts_with_char(old(jvm_methods).deep_view()),
{
    proof {
        reveal(text_starts_with_char);
    }
    let mut ops = empty_ops();
    push_op(make_load(Kind::Reference, 0), &mut ops);
    push_op(
        make_invoke_static(
            &make_member(
                UTF8_VIEW_CLASS,
                "toJavaString",
                "(Lorg/rustlang/runtime/Utf8View;)Ljava/lang/String;",
            ),
        ),
        &mut ops,
    );
    push_op(make_load(Kind::Int, 1), &mut ops);
    push_op(make_invoke_static(&make_member("java/lang/Character", "toChars", "(I)[C")), &mut ops);
    push_op(
        make_invoke_static(&make_member("java/lang/String", "valueOf", "([C)Ljava/lang/String;")),
        &mut ops,
    );
    push_op(
        make_invoke_virtual(
            &make_member("java/lang/String", "startsWith", "(Ljava/lang/String;)Z"),
        ),
        &mut ops,
    );
    push_op(make_return(Kind::Int), &mut ops);
    append_method(
        make_method(
            PUBLIC_STATIC,
            "startsWithChar",
            "(Lorg/rustlang/runtime/Utf8View;I)Z",
            2,
            2,
            ops,
        ),
        jvm_methods,
    );
}

/// The fields of a view: the allocation, where the view starts, and its length in 64 and in 32
/// bits.
pub open spec fn slice_view_fields() -> Seq<JvmFieldModel> {
    seq![
        jvm_field(PUBLIC_FINAL, "array"@, object_class()),
        jvm_field(PUBLIC_FINAL, "offset"@, Type::I32),
        jvm_field(PUBLIC_FINAL, "rustLength"@, Type::I64),
        jvm_field(PUBLIC_FINAL, "length"@, Type::I32),
    ]
}

fn make_slice_view_fields() -> (r: Vec<JvmField>)
    ensures
        r.deep_view() == slice_view_fields(),
{
    let mut r: Vec<JvmField> = Vec::new();
    r.push(make_jvm_field(PUBLIC_FINAL, "array", &object_type()));
    r.push(make_jvm_field(PUBLIC_FINAL, "offset", &Type::I32));
    r.push(make_jvm_field(PUBLIC_FINAL, "rustLength", &Type::I64));
    r.push(make_jvm_field(PUBLIC_FINAL, "length", &Type::I32));
    assert(r.deep_view() =~= slice_view_fields());
    r
}

/// The methods of the class of slices.
#[verifier::opaque]
pub open spec fn slice_view_methods() -> Seq<JvmMethodModel> {
    let jvm_methods = no_jvm_methods();
    let jvm_methods = slice_constructor(jvm_methods);
    let jvm_methods = slice_long_constructor(jvm_methods);
    let jvm_methods = slice_to_array(jvm_methods);
    let jvm_methods = slice_from_string(jvm_methods);
    let jvm_methods = slice_to_utf8_string(jvm_methods);
    let jvm_methods = slice_encode_utf8(jvm_methods);
    let jvm_methods = slice_starts_with(jvm_methods);
    let jvm_methods = slice_starts_with_i8(jvm_methods);
    let jvm_methods = slice_starts_with_i32(jvm_methods);
    jvm_methods
}

/// Makes the methods of the class of slices.
pub fn make_slice_view_methods() -> (r: Vec<JvmMethod>)
    ensures
        r.deep_view() == slice_view_methods(),
{
    proof {
        reveal(slice_view_methods);
    }
    let mut jvm_methods = empty_jvm_methods();
    push_slice_constructor(&mut jvm_methods);
    push_slice_long_constructor(&mut jvm_methods);
    push_slice_to_array(&mut jvm_methods);
    push_slice_from_string(&mut jvm_methods);
    push_slice_to_utf8_string(&mut jvm_methods);
    push_slice_encode_utf8(&mut jvm_methods);
    push_slice_starts_with(&mut jvm_methods);
    push_slice_starts_with_i8(&mut jvm_methods);
    push_slice_starts_with_i32(&mut jvm_methods);
    jvm_methods
}

/// The methods of the class of text.
#[verifier::opaque]
pub open spec fn text_view_methods() -> Seq<JvmMethodModel> {
    let jvm_methods = no_jvm_methods();
    let jvm_methods = text_constructor(jvm_methods);
    let jvm_methods = text_long_constructor(jvm_methods);
    let jvm_methods = text_from_java(jvm_methods);
    let jvm_methods = text_to_java(jvm_methods);
    let jvm_methods = text_as_slice(jvm_methods);
    let jvm_methods = text_from_slice(jvm_methods);
    let jvm_methods = text_len(jvm_methods);
    let jvm_methods = text_starts_with(jvm_methods);
    let jvm_methods = text_equals(jvm_methods);
    let jvm_methods = text_starts_with_char(jvm_methods);
    jvm_methods
}

/// Makes the methods of the class of text.
pub fn make_text_view_methods() -> (r: Vec<JvmMethod>)
    ensures
        r.deep_view() == text_view_methods(),
{
    proof {
        reveal(text_view_methods);
    }
    let mut jvm_methods = empty_jvm_methods();
    push_text_constructor(&mut jvm_methods);
    push_text_long_constructor(&mut jvm_methods);
    push_text_from_java(&mut jvm_methods);
    push_text_to_java(&mut jvm_methods);
    push_text_as_slice(&mut jvm_methods);
    push_text_from_slice(&mut jvm_methods);
    push_text_len(&mut jvm_methods);
    push_text_starts_with(&mut jvm_methods);
    push_text_equals(&mut jvm_methods);
    push_text_starts_with_char(&mut jvm_methods);
    jvm_methods
}

/// The class of slices.
pub open spec fn slice_view_class() -> ClassFileModel {
    plain_class(
        PUBLIC_SUPER,
        SLICE_VIEW_CLASS@,
        OBJECT_CLASS@,
        slice_view_fields(),
        slice_view_methods(),
    )
}

/// Makes the class of slices.
pub fn create_slice_view_classfile() -> (r: ClassFile)
    ensures
        r.deep_view() == slice_view_class(),
{
    make_plain_class(
        PUBLIC_SUPER,
        SLICE_VIEW_CLASS,
        OBJECT_CLASS,
        make_slice_view_fields(),
        make_slice_view_methods(),
    )
}

/// The class of text: a view of bytes that are valid UTF-8.
pub open spec fn utf8_view_class() -> ClassFileModel {
    plain_class(
        PUBLIC_FINAL_SUPER,
        UTF8_VIEW_CLASS@,
        SLICE_VIEW_CLASS@,
        Seq::empty(),
        text_view_methods(),
    )
}

/// Makes the class of text.
pub fn create_utf8_view_classfile() -> (r: ClassFile)
    ensures
        r.deep_view() == utf8_view_class(),
{
    let fields: Vec<JvmField> = Vec::new();
    assert(fields.deep_view() =~= Seq::<JvmFieldModel>::empty());
    make_plain_class(
        PUBLIC_FINAL_SUPER,
        UTF8_VIEW_CLASS,
        SLICE_VIEW_CLASS,
        fields,
        make_text_view_methods(),
    )
}

} // verus!
