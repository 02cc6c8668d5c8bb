//! What the methods of text give back.
use crate::jvm_ops::{JvmMethodModel, Op, OpModel};
use crate::view_classes::{text_as_slice, text_equals, text_from_slice, text_len, text_starts_with};
use crate::view_meaning::{
    Cell, Point, Span, added_ops, agree_from, answer_of, given, has_prefix, moved, number_on,
    onward, replaced, views_are_compared_by_their_elements,
};
use vstd::prelude::*;
use vstd::string::*;

verus! {

/// Where an instruction of a method of text leads. The constructor makes a view of the array, the
/// offset and the length that it gets, and `startsWith` does what its code does.
pub open spec fn text_moved(
    elements: spec_fn(int, int) -> int,
    starts_with: Seq<OpModel>,
    ops: Seq<OpModel>,
    p: Point,
) -> Option<Point> {
    let stack = p.stack;
    let n = stack.len() as int;
    match ops[p.at] {
        Op::New { .. } => Some(onward(p, stack.push(Cell::Fresh))),
        Op::Dup => if n > 0 {
            Some(onward(p, stack.push(stack.last())))
        } else {
            None
        },
        Op::IntToLong => match number_on(stack, 0) {
            Some(_) => Some(onward(p, stack)),
            None => None,
        },
        Op::InvokeSpecial { .. } => if n >= 5 && stack[n - 5] is Fresh && stack[n - 4] is Fresh {
            match (stack[n - 3], number_on(stack, 1), number_on(stack, 0)) {
                (Cell::Array { array }, Some(offset), Some(length)) => Some(
                    onward(
                        p,
                        replaced(stack, 5, Cell::View { span: Span { array, offset, length } }),
                    ),
                ),
                _ => None,
            }
        } else {
            None
        },
        Op::InvokeStatic { .. } => match (n > 1, stack[n - 2], stack[n - 1]) {
            (true, Cell::View { span: a }, Cell::View { span: b }) => match answer_of(
                elements,
                starts_with,
                Point { at: 0, stack: Seq::empty(), locals: given(a, b) },
                (22 * b.length + 13) as nat,
            ) {
                Some(number) => Some(onward(p, replaced(stack, 2, Cell::Number { number }))),
                None => None,
            },
            _ => None,
        },
        _ => moved(elements, ops, p),
    }
}

/// What a method of text returns from a point on, if it does after so many instructions.
pub open spec fn text_answer(
    elements: spec_fn(int, int) -> int,
    starts_with: Seq<OpModel>,
    ops: Seq<OpModel>,
    p: Point,
    steps: nat,
) -> Option<Cell>
    decreases steps,
{
    if steps == 0 || !(0 <= p.at < ops.len()) {
        None
    } else if ops[p.at] is Return {
        if p.stack.len() > 0 {
            Some(p.stack.last())
        } else {
            None
        }
    } else {
        match text_moved(elements, starts_with, ops, p) {
            Some(q) => text_answer(elements, starts_with, ops, q, (steps - 1) as nat),
            None => None,
        }
    }
}

/// What a method of text returns for one text.
pub open spec fn of_one(
    elements: spec_fn(int, int) -> int,
    starts_with: Seq<OpModel>,
    ops: Seq<OpModel>,
    a: Span,
) -> Option<Cell> {
    let locals = Map::<u16, Cell>::empty().insert(0u16, Cell::View { span: a });
    text_answer(elements, starts_with, ops, Point { at: 0, stack: Seq::empty(), locals }, 16)
}

/// What a method of text returns for two texts.
pub open spec fn of_two(
    elements: spec_fn(int, int) -> int,
    starts_with: Seq<OpModel>,
    ops: Seq<OpModel>,
    a: Span,
    b: Span,
) -> Option<Cell> {
    let start = Point { at: 0, stack: Seq::empty(), locals: given(a, b) };
    text_answer(elements, starts_with, ops, start, 16)
}

/// Whether two texts have the same length and the same bytes.
pub open spec fn same_bytes_as(elements: spec_fn(int, int) -> int, a: Span, b: Span) -> bool {
    a.length == b.length && agree_from(elements, a, b, 0)
}

/// An instruction that does not return is one step.
proof fn text_step(
    elements: spec_fn(int, int) -> int,
    starts_with: Seq<OpModel>,
    ops: Seq<OpModel>,
    p: Point,
    q: Point,
    steps: nat,
)
    requires
        0 <= p.at < ops.len(),
        !(ops[p.at] is Return),
        text_moved(elements, starts_with, ops, p) == Some(q),
        steps > 0,
    ensures
        text_answer(elements, starts_with, ops, p, steps) == text_answer(
            elements,
            starts_with,
            ops,
            q,
            (steps - 1) as nat,
        ),
{
}

proof fn field_names_differ()
    ensures
        "length"@ != "offset"@,
        "length"@ != "array"@,
        "offset"@ != "array"@,
{
    reveal_strlit("length");
    reveal_strlit("offset");
    reveal_strlit("array");
    assert("length"@[0] == 'l' && "offset"@[0] == 'o' && "array"@[0] == 'a');
}

/// The length of a text is that of its view.
proof fn length_is_read(
    elements: spec_fn(int, int) -> int,
    starts_with: Seq<OpModel>,
    methods: Seq<JvmMethodModel>,
    a: Span,
)
    ensures
        of_one(elements, starts_with, added_ops(text_len(methods)), a) == Some(
            Cell::Number { number: a.length },
        ),
{
    reveal(text_len);
    field_names_differ();
    let ops = added_ops(text_len(methods));
    let locals = Map::<u16, Cell>::empty().insert(0u16, Cell::View { span: a });
    let length = Cell::Number { number: a.length };
    let p0 = Point { at: 0, stack: Seq::<Cell>::empty(), locals };
    let p1 = Point { at: 1, stack: seq![Cell::View { span: a }], locals };
    let p2 = Point { at: 2, stack: seq![length], locals };
    let p3 = Point { at: 3, stack: seq![length], locals };
    assert(ops.len() == 4);
    assert(text_moved(elements, starts_with, ops, p0)->0.stack =~= p1.stack);
    text_step(elements, starts_with, ops, p0, p1, 16);
    assert(text_moved(elements, starts_with, ops, p1)->0.stack =~= p2.stack);
    text_step(elements, starts_with, ops, p1, p2, 15);
    text_step(elements, starts_with, ops, p2, p3, 14);
    assert(text_answer(elements, starts_with, ops, p3, 13) == Some(length));
}

/// A text is shown as the view that it is.
proof fn view_is_shown(
    elements: spec_fn(int, int) -> int,
    starts_with: Seq<OpModel>,
    methods: Seq<JvmMethodModel>,
    a: Span,
)
    ensures
        of_one(elements, starts_with, added_ops(text_as_slice(methods)), a) == Some(
            Cell::View { span: a },
        ),
{
    reveal(text_as_slice);
    let ops = added_ops(text_as_slice(methods));
    let locals = Map::<u16, Cell>::empty().insert(0u16, Cell::View { span: a });
    let p0 = Point { at: 0, stack: Seq::<Cell>::empty(), locals };
    let p1 = Point { at: 1, stack: seq![Cell::View { span: a }], locals };
    assert(ops.len() == 2);
    assert(text_moved(elements, starts_with, ops, p0)->0.stack =~= p1.stack);
    text_step(elements, starts_with, ops, p0, p1, 16);
    assert(text_answer(elements, starts_with, ops, p1, 15) == Some(Cell::View { span: a }));
}

/// A text that is made of a view has its array, its offset and its length.
proof fn text_is_made(
    elements: spec_fn(int, int) -> int,
    starts_with: Seq<OpModel>,
    methods: Seq<JvmMethodModel>,
    a: Span,
)
    ensures
        of_one(elements, starts_with, added_ops(text_from_slice(methods)), a) == Some(
            Cell::View { span: a },
        ),
{
    reveal(text_from_slice);
    field_names_differ();
    let ops = added_ops(text_from_slice(methods));
    let view = Cell::View { span: a };
    let locals = Map::<u16, Cell>::empty().insert(0u16, view);
    let array = Cell::Array { array: a.array };
    let offset = Cell::Number { number: a.offset };
    let length = Cell::Number { number: a.length };
    let p0 = Point { at: 0, stack: Seq::<Cell>::empty(), locals };
    let p1 = Point { at: 1, stack: seq![Cell::Fresh], locals };
    let p2 = Point { at: 2, stack: seq![Cell::Fresh, Cell::Fresh], locals };
    let p3 = Point { at: 3, stack: seq![Cell::Fresh, Cell::Fresh, view], locals };
    let p4 = Point { at: 4, stack: seq![Cell::Fresh, Cell::Fresh, array], locals };
    let p5 = Point { at: 5, stack: seq![Cell::Fresh, Cell::Fresh, array, view], locals };
    let p6 = Point { at: 6, stack: seq![Cell::Fresh, Cell::Fresh, array, offset], locals };
    let p7 = Point { at: 7, stack: seq![Cell::Fresh, Cell::Fresh, array, offset, view], locals };
    let p8 = Point { at: 8, stack: seq![Cell::Fresh, Cell::Fresh, array, offset, length], locals };
    let p9 = Point { at: 9, stack: seq![view], locals };
    assert(ops.len() == 10);
    assert(text_moved(elements, starts_with, ops, p0)->0.stack =~= p1.stack);
    text_step(elements, starts_with, ops, p0, p1, 16);
    assert(text_moved(elements, starts_with, ops, p1)->0.stack =~= p2.stack);
    text_step(elements, starts_with, ops, p1, p2, 15);
    assert(text_moved(elements, starts_with, ops, p2)->0.stack =~= p3.stack);
    text_step(elements, starts_with, ops, p2, p3, 14);
    assert(text_moved(elements, starts_with, ops, p3)->0.stack =~= p4.stack);
    text_step(elements, starts_with, ops, p3, p4, 13);
    assert(text_moved(elements, starts_with, ops, p4)->0.stack =~= p5.stack);
    text_step(elements, starts_with, ops, p4, p5, 12);
    assert(text_moved(elements, starts_with, ops, p5)->0.stack =~= p6.stack);
    text_step(elements, starts_with, ops, p5, p6, 11);
    assert(text_moved(elements, starts_with, ops, p6)->0.stack =~= p7.stack);
    text_step(elements, starts_with, ops, p6, p7, 10);
    assert(text_moved(elements, starts_with, ops, p7)->0.stack =~= p8.stack);
    text_step(elements, starts_with, ops, p7, p8, 9);
    assert(text_moved(elements, starts_with, ops, p8)->0.stack =~= p9.stack);
    text_step(elements, starts_with, ops, p8, p9, 8);
    assert(text_answer(elements, starts_with, ops, p9, 7) == Some(view));
}

/// Texts are equal if their lengths are and the one starts with the other.
proof fn texts_are_compared(
    elements: spec_fn(int, int) -> int,
    starts_with: Seq<OpModel>,
    methods: Seq<JvmMethodModel>,
    a: Span,
    b: Span,
)
    requires
        answer_of(
            elements,
            starts_with,
            Point { at: 0, stack: Seq::empty(), locals: given(a, b) },
            (22 * b.length + 13) as nat,
        ) == Some(
            if has_prefix(elements, a, b) {
                1int
            } else {
                0int
            },
        ),
    ensures
        of_two(elements, starts_with, added_ops(text_equals(methods)), a, b) == Some(
            Cell::Number {
                number: if same_bytes_as(elements, a, b) {
                    1
                } else {
                    0
                },
            },
        ),
{
    reveal(text_equals);
    field_names_differ();
    let ops = added_ops(text_equals(methods));
    let locals = given(a, b);
    let x = Cell::Number { number: a.length };
    let y = Cell::Number { number: b.length };
    let p0 = Point { at: 0, stack: Seq::<Cell>::empty(), locals };
    let p1 = Point { at: 1, stack: seq![Cell::View { span: a }], locals };
    let p2 = Point { at: 2, stack: seq![x], locals };
    let p3 = Point { at: 3, stack: seq![x, Cell::View { span: b }], locals };
    let p4 = Point { at: 4, stack: seq![x, y], locals };
    assert(ops.len() == 11);
    assert(text_moved(elements, starts_with, ops, p0)->0.stack =~= p1.stack);
    text_step(elements, starts_with, ops, p0, p1, 16);
    assert(text_moved(elements, starts_with, ops, p1)->0.stack =~= p2.stack);
    text_step(elements, starts_with, ops, p1, p2, 15);
    assert(text_moved(elements, starts_with, ops, p2)->0.stack =~= p3.stack);
    text_step(elements, starts_with, ops, p2, p3, 14);
    assert(text_moved(elements, starts_with, ops, p3)->0.stack =~= p4.stack);
    text_step(elements, starts_with, ops, p3, p4, 13);
    if a.length != b.length {
        let p5 = Point { at: 9, stack: Seq::<Cell>::empty(), locals };
        let p6 = Point { at: 10, stack: seq![Cell::Number { number: 0 }], locals };
        assert(text_moved(elements, starts_with, ops, p4)->0.stack =~= p5.stack);
        text_step(elements, starts_with, ops, p4, p5, 12);
        assert(text_moved(elements, starts_with, ops, p5)->0.stack =~= p6.stack);
        text_step(elements, starts_with, ops, p5, p6, 11);
        assert(text_answer(elements, starts_with, ops, p6, 10) == Some(Cell::Number { number: 0 }));
    } else {
        let found = Cell::Number {
            number: if has_prefix(elements, a, b) {
                1
            } else {
                0
            },
        };
        let p5 = Point { at: 5, stack: Seq::<Cell>::empty(), locals };
        let p6 = Point { at: 6, stack: seq![Cell::View { span: a }], locals };
        let p7 = Point { at: 7, stack: seq![Cell::View { span: a }, Cell::View { span: b }],
            locals };
        let p8 = Point { at: 8, stack: seq![found], locals };
        assert(text_moved(elements, starts_with, ops, p4)->0.stack =~= p5.stack);
        text_step(elements, starts_with, ops, p4, p5, 12);
        assert(text_moved(elements, starts_with, ops, p5)->0.stack =~= p6.stack);
        text_step(elements, starts_with, ops, p5, p6, 11);
        assert(text_moved(elements, starts_with, ops, p6)->0.stack =~= p7.stack);
        text_step(elements, starts_with, ops, p6, p7, 10);
        assert(text_moved(elements, starts_with, ops, p7)->0.stack =~= p8.stack);
        text_step(elements, starts_with, ops, p7, p8, 9);
        assert(text_answer(elements, starts_with, ops, p8, 8) == Some(found));
    }
}

/// The methods of text do what their names say: `len` gives the length of the view, `asSlice` the
/// view itself, `fromSlice` a text with the array, the offset and the length of the view, so that
/// one undoes the other, and `equals` is one for texts with the same length and the same bytes and
/// zero for others.
pub proof fn methods_of_text_keep_the_view(
    elements: spec_fn(int, int) -> int,
    methods: Seq<JvmMethodModel>,
    a: Span,
    b: Span,
)
    requires
        0 <= a.length,
        0 <= b.length,
    ensures
        ({
            let starts_with = added_ops(text_starts_with(methods));
            &&& of_one(elements, starts_with, added_ops(text_len(methods)), a) == Some(
                Cell::Number { number: a.length },
            )
            &&& of_one(elements, starts_with, added_ops(text_as_slice(methods)), a) == Some(
                Cell::View { span: a },
            )
            &&& of_one(elements, starts_with, added_ops(text_from_slice(methods)), a) == Some(
                Cell::View { span: a },
            )
            &&& of_two(elements, starts_with, added_ops(text_equals(methods)), a, b) == Some(
                Cell::Number {
                    number: if same_bytes_as(elements, a, b) {
                        1
                    } else {
                        0
                    },
                },
            )
        }),
{
    let starts_with = added_ops(text_starts_with(methods));
    length_is_read(elements, starts_with, methods, a);
    view_is_shown(elements, starts_with, methods, a);
    text_is_made(elements, starts_with, methods, a);
    views_are_compared_by_their_elements(
        elements,
        methods,
        a,
        b,
        (22 * b.length + 13) as nat,
    );
    texts_are_compared(elements, starts_with, methods, a, b);
}

} // verus!
