//! What the methods of slices and of text do with the values that they are given.
use crate::equality_meaning::{Compared, verdict};
use crate::jvm_ops::{JvmMethodModel, Op, OpModel, member, no_jvm_methods, op_invoke_static};
use crate::oomir::Text;
use crate::view_classes::{
    slice_constructor, slice_encode_utf8, slice_from_string, slice_long_constructor,
    slice_starts_with, slice_starts_with_i32, slice_starts_with_i8, slice_to_array,
    slice_to_utf8_string, slice_view_methods, text_as_slice, text_constructor, text_equals,
    text_from_java, text_from_slice, text_len, text_long_constructor, text_starts_with,
    text_starts_with_char, text_to_java, text_view_methods,
};
use vstd::prelude::*;
use vstd::string::*;

verus! {

/// A value of a method, by where it comes from.
pub enum Item {
    /// What a local variable holds at the start.
    Given { local: u16 },
    Number { number: int },
    Literal { text: Text },
    /// The value of a field of an object.
    Part { of: Box<Item>, name: Text },
    /// The value of a field of a class.
    Shared { owner: Text, name: Text },
    /// An object whose constructor was not called yet.
    Fresh { class_name: Text },
    /// An object that its constructor made of values.
    Built { class_name: Text, from: Line },
    /// What a method gives for values.
    Result { owner: Text, name: Text, from: Line },
    /// A number in 64 bits instead of 32.
    Widened { of: Box<Item> },
    /// A number in 32 bits instead of 64.
    Narrowed { of: Box<Item> },
    /// A value that is put into a field of an object.
    Change { of: Box<Item>, name: Text, value: Box<Item> },
}

/// Values, the last one first.
pub enum Line {
    End,
    Next { item: Box<Item>, rest: Box<Line> },
}

/// Values with one more behind them.
pub open spec fn with(line: Line, item: Item) -> Line {
    Line::Next { item: Box::new(item), rest: Box::new(line) }
}

/// No values.
pub open spec fn nothing() -> Line {
    Line::End
}

/// The last value.
pub open spec fn top(line: Line) -> Item {
    match line {
        Line::End => Item::Number { number: 0 },
        Line::Next { item, .. } => *item,
    }
}

/// The values without the last ones.
pub open spec fn below(line: Line, count: nat) -> Line
    decreases count,
{
    if count == 0 {
        line
    } else {
        match line {
            Line::End => Line::End,
            Line::Next { rest, .. } => below(*rest, (count - 1) as nat),
        }
    }
}

/// The last values.
pub open spec fn above(line: Line, count: nat) -> Line
    decreases count,
{
    if count == 0 {
        Line::End
    } else {
        match line {
            Line::End => Line::End,
            Line::Next { item, rest } => Line::Next {
                item,
                rest: Box::new(above(*rest, (count - 1) as nat)),
            },
        }
    }
}

/// What is known of methods by their descriptors: how many values they take, apart from an object
/// that they are called on, and whether they give one.
pub struct Descriptors {
    pub takes: spec_fn(Text) -> nat,
    pub gives: spec_fn(Text) -> bool,
}

/// A method behind some of its instructions: the values on its stack, its local variables, what it
/// has done, and what it has returned.
pub struct Flow {
    pub stack: Line,
    pub locals: Map<u16, Item>,
    pub done: Line,
    pub result: Option<Item>,
}

/// A method behind a call: with the value that it gives, or with the call among what it has done.
pub open spec fn behind_call(
    d: Descriptors,
    flow: Flow,
    owner: Text,
    name: Text,
    descriptor: Text,
    count: nat,
) -> Flow {
    let called = Item::Result { owner, name, from: above(flow.stack, count) };
    let left = below(flow.stack, count);
    if (d.gives)(descriptor) {
        Flow { stack: with(left, called), ..flow }
    } else {
        Flow { stack: left, done: with(flow.done, called), ..flow }
    }
}

/// A method behind one more of its instructions.
pub open spec fn flowed(d: Descriptors, flow: Flow, op: OpModel) -> Flow {
    let stack = flow.stack;
    match op {
        Op::Load { local, .. } => Flow {
            stack: with(
                stack,
                if flow.locals.contains_key(local) {
                    flow.locals[local]
                } else {
                    Item::Given { local }
                },
            ),
            ..flow
        },
        Op::Store { local, .. } => Flow {
            stack: below(stack, 1),
            locals: flow.locals.insert(local, top(stack)),
            ..flow
        },
        Op::PushInt { value } => Flow {
            stack: with(stack, Item::Number { number: value as int }),
            ..flow
        },
        Op::PushText { text } => Flow { stack: with(stack, Item::Literal { text }), ..flow },
        Op::GetField { member } => Flow {
            stack: with(
                below(stack, 1),
                Item::Part { of: Box::new(top(stack)), name: member.name },
            ),
            ..flow
        },
        Op::PutField { member } => Flow {
            stack: below(stack, 2),
            done: with(
                flow.done,
                Item::Change {
                    of: Box::new(top(below(stack, 1))),
                    name: member.name,
                    value: Box::new(top(stack)),
                },
            ),
            ..flow
        },
        Op::GetStatic { member } => Flow {
            stack: with(stack, Item::Shared { owner: member.owner, name: member.name }),
            ..flow
        },
        Op::New { class_name } => Flow { stack: with(stack, Item::Fresh { class_name }), ..flow },
        Op::Dup => Flow { stack: with(stack, top(stack)), ..flow },
        Op::CheckCast { .. } => flow,
        Op::IntToLong => Flow {
            stack: with(below(stack, 1), Item::Widened { of: Box::new(top(stack)) }),
            ..flow
        },
        Op::LongToInt => Flow {
            stack: with(below(stack, 1), Item::Narrowed { of: Box::new(top(stack)) }),
            ..flow
        },
        Op::InvokeStatic { member } => behind_call(
            d,
            flow,
            member.owner,
            member.name,
            member.descriptor,
            (d.takes)(member.descriptor),
        ),
        Op::InvokeVirtual { member } => behind_call(
            d,
            flow,
            member.owner,
            member.name,
            member.descriptor,
            (d.takes)(member.descriptor) + 1,
        ),
        Op::InvokeSpecial { member } => {
            let count = (d.takes)(member.descriptor);
            let args = above(stack, count);
            let left = below(stack, count);
            match top(left) {
                Item::Fresh { class_name } => Flow {
                    stack: with(below(left, 2), Item::Built { class_name, from: args }),
                    ..flow
                },
                _ => Flow {
                    stack: below(left, 1),
                    done: with(
                        flow.done,
                        Item::Result {
                            owner: member.owner,
                            name: member.name,
                            from: above(stack, count + 1),
                        },
                    ),
                    ..flow
                },
            }
        },
        Op::Return { .. } => Flow {
            result: match stack {
                Line::End => None,
                Line::Next { item, .. } => Some(*item),
            },
            ..flow
        },
        _ => flow,
    }
}

/// A method behind instructions that follow one another.
pub open spec fn flow_of(d: Descriptors, ops: Seq<OpModel>) -> Flow
    decreases ops.len(),
{
    if ops.len() == 0 {
        Flow { stack: Line::End, locals: Map::empty(), done: Line::End, result: None }
    } else {
        flowed(d, flow_of(d, ops.drop_last()), ops.last())
    }
}

/// One more instruction takes a method one step further.
broadcast proof fn one_more_op(d: Descriptors, ops: Seq<OpModel>, op: OpModel)
    ensures
        #[trigger] flow_of(d, ops.push(op)) == flowed(d, flow_of(d, ops), op),
{
    assert(ops.push(op).drop_last() =~= ops);
}

/// The instructions of the last of some methods.
pub open spec fn last_ops(methods: Seq<JvmMethodModel>) -> Seq<OpModel> {
    methods.last().body->ops
}

/// A field of a view.
pub open spec fn part(of: Item, name: Text) -> Item {
    Item::Part { of: Box::new(of), name }
}

/// What a local variable holds at the start.
pub open spec fn given(local: u16) -> Item {
    Item::Given { local }
}

/// The array of a view, where it starts in it, and how many elements it has.
pub open spec fn extent(view: Item) -> Line {
    with(
        with(with(nothing(), part(view, "array"@)), part(view, "offset"@)),
        part(view, "length"@),
    )
}

/// What the descriptors of the methods that views call say.
pub open spec fn are_known(d: Descriptors) -> bool {
    &&& (d.takes)("()V"@) == 0
    &&& (d.takes)("()Ljava/lang/Class;"@) == 0
    &&& (d.gives)("()Ljava/lang/Class;"@)
    &&& (d.takes)("(Ljava/lang/Class;I)Ljava/lang/Object;"@) == 2
    &&& (d.gives)("(Ljava/lang/Class;I)Ljava/lang/Object;"@)
    &&& (d.takes)("(Ljava/lang/Object;ILjava/lang/Object;II)V"@) == 5
    &&& !(d.gives)("(Ljava/lang/Object;ILjava/lang/Object;II)V"@)
    &&& (d.takes)("(Ljava/lang/String;Ljava/lang/String;)Ljava/lang/Object;"@) == 2
    &&& (d.gives)("(Ljava/lang/String;Ljava/lang/String;)Ljava/lang/Object;"@)
    &&& (d.takes)("(Ljava/lang/Object;II)[B"@) == 3
    &&& (d.gives)("(Ljava/lang/Object;II)[B"@)
    &&& (d.takes)("([BLjava/nio/charset/Charset;)V"@) == 2
    &&& (d.takes)("(I)[C"@) == 1
    &&& (d.gives)("(I)[C"@)
    &&& (d.takes)("([C)Ljava/lang/String;"@) == 1
    &&& (d.gives)("([C)Ljava/lang/String;"@)
    &&& (d.takes)("(Ljava/lang/String;)Lorg/rustlang/runtime/SliceView;"@) == 1
    &&& (d.gives)("(Ljava/lang/String;)Lorg/rustlang/runtime/SliceView;"@)
    &&& (d.takes)("(Ljava/lang/Object;II)V"@) == 3
    &&& (d.takes)("(Ljava/lang/Object;IJ)V"@) == 3
    &&& (d.takes)("(Lorg/rustlang/runtime/SliceView;)Ljava/lang/String;"@) == 1
    &&& (d.gives)("(Lorg/rustlang/runtime/SliceView;)Ljava/lang/String;"@)
    &&& (d.takes)("(Lorg/rustlang/runtime/Utf8View;)Ljava/lang/String;"@) == 1
    &&& (d.gives)("(Lorg/rustlang/runtime/Utf8View;)Ljava/lang/String;"@)
    &&& (d.takes)("(Ljava/lang/String;)Z"@) == 1
    &&& (d.gives)("(Ljava/lang/String;)Z"@)
}

/// The values that an object is changed to hold, each under the name of its field.
pub open spec fn holds_extent(array: Item, offset: Item, length: Item, rust_length: Item) -> Line {
    let change = |name: Text, value: Item|
        Item::Change { of: Box::new(given(0)), name, value: Box::new(value) };
    let started = Item::Result {
        owner: "java/lang/Object"@,
        name: "<init>"@,
        from: with(nothing(), given(0)),
    };
    with(
        with(
            with(
                with(with(nothing(), started), change("array"@, array)),
                change("offset"@, offset),
            ),
            change("length"@, length),
        ),
        change("rustLength"@, rust_length),
    )
}

/// The constructors of slices keep the array, the start and the length that they are given; the
/// length is kept in 32 and in 64 bits.
pub proof fn slices_hold_what_they_are_made_of(d: Descriptors, before: Seq<JvmMethodModel>)
    requires
        are_known(d),
    ensures
        flow_of(d, last_ops(slice_constructor(before))).done == holds_extent(
            given(1),
            given(2),
            given(3),
            Item::Widened { of: Box::new(given(3)) },
        ),
        flow_of(d, last_ops(slice_long_constructor(before))).done == holds_extent(
            given(1),
            given(2),
            Item::Narrowed { of: Box::new(given(3)) },
            given(3),
        ),
{
    broadcast use one_more_op;

    reveal(slice_constructor);
    reveal(slice_long_constructor);
    reveal_with_fuel(below, 6);
    reveal_with_fuel(above, 6);
}

/// The constructors of text hand what they are given to those of slices.
pub proof fn text_is_made_as_a_slice(d: Descriptors, before: Seq<JvmMethodModel>)
    requires
        are_known(d),
    ensures
        ({
            let started = Item::Result {
                owner: "org/rustlang/runtime/SliceView"@,
                name: "<init>"@,
                from: with(with(with(with(nothing(), given(0)), given(1)), given(2)), given(3)),
            };
            &&& flow_of(d, last_ops(text_constructor(before))).done == with(nothing(), started)
            &&& flow_of(d, last_ops(text_long_constructor(before))).done == with(
                nothing(),
                started,
            )
        }),
{
    broadcast use one_more_op;

    reveal(text_constructor);
    reveal(text_long_constructor);
    reveal_with_fuel(below, 6);
    reveal_with_fuel(above, 6);
}

/// The array of a slice is a new one with elements of the same type, as many as the slice has, into
/// which those of the slice are copied.
pub proof fn slices_are_copied_into_arrays(d: Descriptors, before: Seq<JvmMethodModel>)
    requires
        are_known(d),
    ensures
        ({
            let view = given(0);
            let class = Item::Result {
                owner: "java/lang/Object"@,
                name: "getClass"@,
                from: with(nothing(), part(view, "array"@)),
            };
            let element = Item::Result {
                owner: "java/lang/Class"@,
                name: "getComponentType"@,
                from: with(nothing(), class),
            };
            let array = Item::Result {
                owner: "java/lang/reflect/Array"@,
                name: "newInstance"@,
                from: with(with(nothing(), element), part(view, "length"@)),
            };
            let copied = Item::Result {
                owner: "java/lang/System"@,
                name: "arraycopy"@,
                from: with(
                    with(
                        with(
                            with(with(nothing(), part(view, "array"@)), part(view, "offset"@)),
                            array,
                        ),
                        Item::Number { number: 0 },
                    ),
                    part(view, "length"@),
                ),
            };
            let flow = flow_of(d, last_ops(slice_to_array(before)));
            &&& flow.done == with(nothing(), copied)
            &&& flow.result == Some(array)
        }),
{
    broadcast use one_more_op;

    reveal(slice_to_array);
    reveal_with_fuel(below, 7);
    reveal_with_fuel(above, 7);
}

/// The view of a string that the runtime makes for a class.
pub open spec fn string_view(text: Item, class_name: Text) -> Item {
    Item::Result {
        owner: "org/rustlang/runtime/Pointer"@,
        name: "stringView"@,
        from: with(with(nothing(), text), Item::Literal { text: class_name }),
    }
}

/// A string becomes a slice or a text by a view that the runtime makes for exactly this class.
pub proof fn strings_are_seen_by_their_class(d: Descriptors, before: Seq<JvmMethodModel>)
    requires
        are_known(d),
    ensures
        flow_of(d, last_ops(slice_from_string(before))).result == Some(
            string_view(given(0), "org/rustlang/runtime/SliceView"@),
        ),
        flow_of(d, last_ops(text_from_java(before))).result == Some(
            string_view(given(0), "org/rustlang/runtime/Utf8View"@),
        ),
{
    broadcast use one_more_op;

    reveal(slice_from_string);
    reveal(text_from_java);
    reveal_with_fuel(below, 6);
    reveal_with_fuel(above, 6);
}

/// The string of a slice is that which the bytes of the slice, and no others, mean in UTF-8; that
/// of a text is the one of its slice.
pub proof fn slices_are_read_as_text(d: Descriptors, before: Seq<JvmMethodModel>)
    requires
        are_known(d),
    ensures
        ({
            let bytes = Item::Result {
                owner: "org/rustlang/runtime/Pointer"@,
                name: "sliceToByteArray"@,
                from: extent(given(0)),
            };
            let charset = Item::Shared {
                owner: "java/nio/charset/StandardCharsets"@,
                name: "UTF_8"@,
            };
            &&& flow_of(d, last_ops(slice_to_utf8_string(before))).result == Some(
                Item::Built {
                    class_name: "java/lang/String"@,
                    from: with(with(nothing(), bytes), charset),
                },
            )
            &&& flow_of(d, last_ops(text_to_java(before))).result == Some(
                Item::Result {
                    owner: "org/rustlang/runtime/SliceView"@,
                    name: "toUtf8String"@,
                    from: with(nothing(), given(0)),
                },
            )
        }),
{
    broadcast use one_more_op;

    reveal(slice_to_utf8_string);
    reveal(text_to_java);
    reveal_with_fuel(below, 6);
    reveal_with_fuel(above, 6);
}

/// The string of one character.
pub open spec fn string_of(character: Item) -> Item {
    Item::Result {
        owner: "java/lang/String"@,
        name: "valueOf"@,
        from: with(
            nothing(),
            Item::Result {
                owner: "java/lang/Character"@,
                name: "toChars"@,
                from: with(nothing(), character),
            },
        ),
    }
}

/// Encoding a character copies the bytes of its string to the start of the slice that is given, and
/// returns a text that starts there and has as many bytes.
pub proof fn characters_are_encoded_at_the_start(d: Descriptors, before: Seq<JvmMethodModel>)
    requires
        are_known(d),
    ensures
        ({
            let encoded = Item::Result {
                owner: "org/rustlang/runtime/SliceView"@,
                name: "fromString"@,
                from: with(nothing(), string_of(given(0))),
            };
            let into = given(1);
            let copied = Item::Result {
                owner: "java/lang/System"@,
                name: "arraycopy"@,
                from: with(
                    with(
                        with(
                            with(
                                with(nothing(), part(encoded, "array"@)),
                                part(encoded, "offset"@),
                            ),
                            part(into, "array"@),
                        ),
                        part(into, "offset"@),
                    ),
                    part(encoded, "length"@),
                ),
            };
            let flow = flow_of(d, last_ops(slice_encode_utf8(before)));
            &&& flow.done == with(nothing(), copied)
            &&& flow.result == Some(
                Item::Built {
                    class_name: "org/rustlang/runtime/Utf8View"@,
                    from: with(
                        with(with(nothing(), part(into, "array"@)), part(into, "offset"@)),
                        part(encoded, "length"@),
                    ),
                },
            )
        }),
{
    broadcast use one_more_op;

    reveal(slice_encode_utf8);
    reveal_with_fuel(below, 7);
    reveal_with_fuel(above, 7);
}

/// A text is a slice as it is, and a slice becomes a text of the same extent; the length of a text
/// is that of its view.
pub proof fn text_has_the_extent_of_its_slice(d: Descriptors, before: Seq<JvmMethodModel>)
    requires
        are_known(d),
    ensures
        flow_of(d, last_ops(text_as_slice(before))).result == Some(given(0)),
        flow_of(d, last_ops(text_from_slice(before))).result == Some(
            Item::Built { class_name: "org/rustlang/runtime/Utf8View"@, from: extent(given(0)) },
        ),
        flow_of(d, last_ops(text_len(before))).result == Some(
            Item::Widened { of: Box::new(part(given(0), "length"@)) },
        ),
{
    broadcast use one_more_op;

    reveal(text_as_slice);
    reveal(text_from_slice);
    reveal(text_len);
    reveal_with_fuel(below, 6);
    reveal_with_fuel(above, 6);
}

/// Whether a text starts with a character is whether its string starts with that of the character.
pub proof fn first_characters_are_compared_as_strings(d: Descriptors, before: Seq<JvmMethodModel>)
    requires
        are_known(d),
    ensures
        ({
            let text = Item::Result {
                owner: "org/rustlang/runtime/Utf8View"@,
                name: "toJavaString"@,
                from: with(nothing(), given(0)),
            };
            flow_of(d, last_ops(text_starts_with_char(before))).result == Some(
                Item::Result {
                    owner: "java/lang/String"@,
                    name: "startsWith"@,
                    from: with(with(nothing(), text), string_of(given(1))),
                },
            )
        }),
{
    broadcast use one_more_op;

    reveal(text_starts_with_char);
    reveal_with_fuel(below, 6);
    reveal_with_fuel(above, 6);
}

/// Two texts are equal exactly if they have the same length and one starts with the other.
pub proof fn equal_texts_have_the_same_length(c: Compared, before: Seq<JvmMethodModel>)
    ensures
        ({
            let starts_with = op_invoke_static(
                member(
                    "org/rustlang/runtime/Utf8View"@,
                    "startsWith"@,
                    "(Lorg/rustlang/runtime/Utf8View;Lorg/rustlang/runtime/Utf8View;)Z"@,
                ),
            );
            verdict(c, last_ops(text_equals(before)), 0, Seq::empty()) == Some(
                if (c.field)(c.first, "length"@) == (c.field)(c.second, "length"@) && (c.same)(
                    starts_with,
                    c.first,
                    c.second,
                ) {
                    1int
                } else {
                    0int
                },
            )
        }),
{
    reveal(text_equals);
    let ops = last_ops(text_equals(before));
    let none = Seq::<int>::empty();
    let x = (c.field)(c.first, "length"@);
    let y = (c.field)(c.second, "length"@);
    let s1 = none.push(c.first);
    let s2 = none.push(x);
    let s3 = s2.push(c.second);
    let s4 = s2.push(y);
    assert(ops.len() == 11);
    assert(verdict(c, ops, 0, none) == verdict(c, ops, 1, s1));
    assert(s1.drop_last().push(x) =~= s2);
    assert(verdict(c, ops, 1, s1) == verdict(c, ops, 2, s2));
    assert(verdict(c, ops, 2, s2) == verdict(c, ops, 3, s3));
    assert(s3.drop_last().push(y) =~= s4);
    assert(verdict(c, ops, 3, s3) == verdict(c, ops, 4, s4));
    assert(s4.drop_last().drop_last() =~= none);
    if x == y {
        let s6 = none.push(c.first).push(c.second);
        assert(verdict(c, ops, 4, s4) == verdict(c, ops, 5, none));
        assert(verdict(c, ops, 5, none) == verdict(c, ops, 6, s1));
        assert(verdict(c, ops, 6, s1) == verdict(c, ops, 7, s6));
        assert(s6.drop_last().drop_last() =~= none);
        let answer = if (c.same)(ops[7], c.first, c.second) {
            1int
        } else {
            0int
        };
        assert(verdict(c, ops, 7, s6) == verdict(c, ops, 8, none.push(answer)));
        assert(verdict(c, ops, 8, none.push(answer)) == Some(none.push(answer).last()));
    } else {
        assert(verdict(c, ops, 4, s4) == verdict(c, ops, 9, none));
        assert(verdict(c, ops, 9, none) == verdict(c, ops, 10, none.push(0)));
        assert(verdict(c, ops, 10, none.push(0)) == Some(none.push(0).last()));
    }
}

/// The names of methods.
pub open spec fn names_of(methods: Seq<JvmMethodModel>) -> Seq<Text> {
    methods.map_values(|method: JvmMethodModel| method.name)
}

proof fn slices_get_a_method(before: Seq<JvmMethodModel>)
    ensures
        names_of(slice_constructor(before)) == names_of(before).push("<init>"@),
        names_of(slice_long_constructor(before)) == names_of(before).push("<init>"@),
        names_of(slice_to_array(before)) == names_of(before).push("toArray"@),
        names_of(slice_from_string(before)) == names_of(before).push("fromString"@),
        names_of(slice_to_utf8_string(before)) == names_of(before).push("toUtf8String"@),
        names_of(slice_encode_utf8(before)) == names_of(before).push("encodeUtf8"@),
        names_of(slice_starts_with(before)) == names_of(before).push("startsWith"@),
        names_of(slice_starts_with_i8(before)) == names_of(before).push("startsWithI8"@),
        names_of(slice_starts_with_i32(before)) == names_of(before).push("startsWithI32"@),
{
    reveal(slice_constructor);
    reveal(slice_long_constructor);
    reveal(slice_to_array);
    reveal(slice_from_string);
    reveal(slice_to_utf8_string);
    reveal(slice_encode_utf8);
    reveal(slice_starts_with);
    reveal(slice_starts_with_i8);
    reveal(slice_starts_with_i32);
    assert(names_of(slice_constructor(before)) =~= names_of(before).push("<init>"@));
    assert(names_of(slice_long_constructor(before)) =~= names_of(before).push("<init>"@));
    assert(names_of(slice_to_array(before)) =~= names_of(before).push("toArray"@));
    assert(names_of(slice_from_string(before)) =~= names_of(before).push("fromString"@));
    assert(names_of(slice_to_utf8_string(before)) =~= names_of(before).push("toUtf8String"@));
    assert(names_of(slice_encode_utf8(before)) =~= names_of(before).push("encodeUtf8"@));
    assert(names_of(slice_starts_with(before)) =~= names_of(before).push("startsWith"@));
    assert(names_of(slice_starts_with_i8(before)) =~= names_of(before).push("startsWithI8"@));
    assert(names_of(slice_starts_with_i32(before)) =~= names_of(before).push("startsWithI32"@));
}

proof fn texts_get_a_method(before: Seq<JvmMethodModel>)
    ensures
        names_of(text_constructor(before)) == names_of(before).push("<init>"@),
        names_of(text_long_constructor(before)) == names_of(before).push("<init>"@),
        names_of(text_from_java(before)) == names_of(before).push("fromJavaString"@),
        names_of(text_to_java(before)) == names_of(before).push("toJavaString"@),
        names_of(text_as_slice(before)) == names_of(before).push("asSlice"@),
        names_of(text_from_slice(before)) == names_of(before).push("fromSlice"@),
        names_of(text_len(before)) == names_of(before).push("len"@),
        names_of(text_starts_with(before)) == names_of(before).push("startsWith"@),
        names_of(text_equals(before)) == names_of(before).push("equals"@),
        names_of(text_starts_with_char(before)) == names_of(before).push("startsWithChar"@),
{
    reveal(text_constructor);
    reveal(text_long_constructor);
    reveal(text_from_java);
    reveal(text_to_java);
    reveal(text_as_slice);
    reveal(text_from_slice);
    reveal(text_len);
    reveal(text_starts_with);
    reveal(text_equals);
    reveal(text_starts_with_char);
    assert(names_of(text_constructor(before)) =~= names_of(before).push("<init>"@));
    assert(names_of(text_long_constructor(before)) =~= names_of(before).push("<init>"@));
    assert(names_of(text_from_java(before)) =~= names_of(before).push("fromJavaString"@));
    assert(names_of(text_to_java(before)) =~= names_of(before).push("toJavaString"@));
    assert(names_of(text_as_slice(before)) =~= names_of(before).push("asSlice"@));
    assert(names_of(text_from_slice(before)) =~= names_of(before).push("fromSlice"@));
    assert(names_of(text_len(before)) =~= names_of(before).push("len"@));
    assert(names_of(text_starts_with(before)) =~= names_of(before).push("startsWith"@));
    assert(names_of(text_equals(before)) =~= names_of(before).push("equals"@));
    assert(names_of(text_starts_with_char(before)) =~= names_of(before).push("startsWithChar"@));
}

proof fn slices_have_their_methods()
    ensures
        names_of(slice_view_methods()) == seq![
            "<init>"@,
            "<init>"@,
            "toArray"@,
            "fromString"@,
            "toUtf8String"@,
            "encodeUtf8"@,
            "startsWith"@,
            "startsWithI8"@,
            "startsWithI32"@,
        ],
{
    reveal(slice_view_methods);
    let methods = no_jvm_methods();
    assert(names_of(methods) =~= Seq::<Text>::empty());
    slices_get_a_method(methods);
    let methods = slice_constructor(methods);
    slices_get_a_method(methods);
    let methods = slice_long_constructor(methods);
    slices_get_a_method(methods);
    let methods = slice_to_array(methods);
    slices_get_a_method(methods);
    let methods = slice_from_string(methods);
    slices_get_a_method(methods);
    let methods = slice_to_utf8_string(methods);
    slices_get_a_method(methods);
    let methods = slice_encode_utf8(methods);
    slices_get_a_method(methods);
    let methods = slice_starts_with(methods);
    slices_get_a_method(methods);
    let methods = slice_starts_with_i8(methods);
    slices_get_a_method(methods);
    let methods = slice_starts_with_i32(methods);
}

proof fn texts_have_their_methods()
    ensures
        names_of(text_view_methods()) == seq![
            "<init>"@,
            "<init>"@,
            "fromJavaString"@,
            "toJavaString"@,
            "asSlice"@,
            "fromSlice"@,
            "len"@,
            "startsWith"@,
            "equals"@,
            "startsWithChar"@,
        ],
{
    reveal(text_view_methods);
    let methods = no_jvm_methods();
    assert(names_of(methods) =~= Seq::<Text>::empty());
    texts_get_a_method(methods);
    let methods = text_constructor(methods);
    texts_get_a_method(methods);
    let methods = text_long_constructor(methods);
    texts_get_a_method(methods);
    let methods = text_from_java(methods);
    texts_get_a_method(methods);
    let methods = text_to_java(methods);
    texts_get_a_method(methods);
    let methods = text_as_slice(methods);
    texts_get_a_method(methods);
    let methods = text_from_slice(methods);
    texts_get_a_method(methods);
    let methods = text_len(methods);
    texts_get_a_method(methods);
    let methods = text_starts_with(methods);
    texts_get_a_method(methods);
    let methods = text_equals(methods);
    texts_get_a_method(methods);
    let methods = text_starts_with_char(methods);
}

/// Slices and text have each of their methods once; constructors come in two forms.
pub proof fn views_have_their_methods()
    ensures
        names_of(slice_view_methods()) == seq![
            "<init>"@,
            "<init>"@,
            "toArray"@,
            "fromString"@,
            "toUtf8String"@,
            "encodeUtf8"@,
            "startsWith"@,
            "startsWithI8"@,
            "startsWithI32"@,
        ],
        names_of(text_view_methods()) == seq![
            "<init>"@,
            "<init>"@,
            "fromJavaString"@,
            "toJavaString"@,
            "asSlice"@,
            "fromSlice"@,
            "len"@,
            "startsWith"@,
            "equals"@,
            "startsWithChar"@,
        ],
{
    slices_have_their_methods();
    texts_have_their_methods();
}

} // verus!
