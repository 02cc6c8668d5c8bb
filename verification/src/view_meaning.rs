//! What the methods that compare views answer.
use crate::jvm_ops::{
    Condition, JvmMethodModel, Kind, Op, OpModel, op_add_int, op_branch, op_goto, op_increment,
    op_load, op_push_int, op_return, op_store,
};
use crate::view_classes::{
    slice_starts_with, slice_starts_with_i32, slice_starts_with_i8, text_starts_with,
};
use vstd::prelude::*;
use vstd::string::*;

verus! {

/// A view: an array, where the view starts in it, and how many elements it has.
pub struct Span {
    pub array: int,
    pub offset: int,
    pub length: int,
}

/// What a local variable or the stack holds: a number, a view, an array or an element of one, or an
/// object whose constructor was not called yet.
pub enum Cell {
    Fresh,
    Number { number: int },
    View { span: Span },
    Array { array: int },
    Element { element: int },
}

/// A method at one of its instructions.
pub struct Point {
    pub at: int,
    pub stack: Seq<Cell>,
    pub locals: Map<u16, Cell>,
}

/// The next instruction with another stack.
pub open spec fn onward(p: Point, stack: Seq<Cell>) -> Point {
    Point { at: p.at + 1, stack, ..p }
}

/// The stack with one cell in place of the topmost ones.
pub open spec fn replaced(stack: Seq<Cell>, count: int, cell: Cell) -> Seq<Cell> {
    stack.take(stack.len() - count).push(cell)
}

/// The number on the stack, counted from its top.
pub open spec fn number_on(stack: Seq<Cell>, depth: int) -> Option<int> {
    if stack.len() <= depth {
        None
    } else {
        match stack[stack.len() - 1 - depth] {
            Cell::Number { number } => Some(number),
            Cell::Element { element } => Some(element),
            _ => None,
        }
    }
}

/// Where an instruction leads. The elements of arrays are given by array and position, and any
/// static method but `equals` reads one.
pub open spec fn moved(
    elements: spec_fn(int, int) -> int,
    ops: Seq<OpModel>,
    p: Point,
) -> Option<Point> {
    let stack = p.stack;
    let n = stack.len() as int;
    match ops[p.at] {
        Op::Load { local, .. } => if p.locals.contains_key(local) {
            Some(onward(p, stack.push(p.locals[local])))
        } else {
            None
        },
        Op::Store { local, .. } => if n > 0 {
            Some(
                Point {
                    at: p.at + 1,
                    stack: stack.drop_last(),
                    locals: p.locals.insert(local, stack.last()),
                },
            )
        } else {
            None
        },
        Op::PushInt { value } => Some(onward(p, stack.push(Cell::Number { number: value as int }))),
        Op::GetField { member } => match (n > 0, stack.last()) {
            (true, Cell::View { span }) => Some(
                onward(
                    p,
                    replaced(
                        stack,
                        1,
                        if member.name == "length"@ {
                            Cell::Number { number: span.length }
                        } else if member.name == "offset"@ {
                            Cell::Number { number: span.offset }
                        } else {
                            Cell::Array { array: span.array }
                        },
                    ),
                ),
            ),
            _ => None,
        },
        Op::AddInt => match (number_on(stack, 0), number_on(stack, 1)) {
            (Some(y), Some(x)) => Some(
                onward(p, replaced(stack, 2, Cell::Number { number: x + y })),
            ),
            _ => None,
        },
        Op::InvokeStatic { member } => if member.name == "equals"@ {
            match (number_on(stack, 0), number_on(stack, 1)) {
                (Some(y), Some(x)) => Some(
                    onward(
                        p,
                        replaced(
                            stack,
                            2,
                            Cell::Number {
                                number: if x == y {
                                    1
                                } else {
                                    0
                                },
                            },
                        ),
                    ),
                ),
                _ => None,
            }
        } else {
            match (number_on(stack, 0), n > 1, stack[n - 2]) {
                (Some(index), true, Cell::Array { array }) => Some(
                    onward(
                        p,
                        replaced(stack, 2, Cell::Element { element: elements(array, index) }),
                    ),
                ),
                _ => None,
            }
        },
        Op::Branch { condition: Condition::IsZero, target } => match number_on(stack, 0) {
            Some(x) => Some(branched(p, 1, x == 0, target as int)),
            None => None,
        },
        Op::Branch { condition, target } => match (number_on(stack, 0), number_on(stack, 1)) {
            (Some(y), Some(x)) => match condition {
                Condition::IntsDiffer => Some(branched(p, 2, x != y, target as int)),
                Condition::IntIsAtLeast => Some(branched(p, 2, x >= y, target as int)),
                Condition::IntIsGreater => Some(branched(p, 2, x > y, target as int)),
                _ => None,
            },
            _ => None,
        },
        Op::Increment { local, by } => match (p.locals.contains_key(local), p.locals[local]) {
            (true, Cell::Number { number }) => Some(
                Point {
                    at: p.at + 1,
                    locals: p.locals.insert(local, Cell::Number { number: number + by }),
                    ..p
                },
            ),
            _ => None,
        },
        Op::Goto { target } => Some(Point { at: target as int, ..p }),
        _ => None,
    }
}

/// Behind a branch: at its target, or at the next instruction.
pub open spec fn branched(p: Point, count: int, taken: bool, target: int) -> Point {
    Point {
        at: if taken {
            target
        } else {
            p.at + 1
        },
        stack: p.stack.take(p.stack.len() - count),
        ..p
    }
}

/// What a method returns from a point on, if it does after so many instructions.
pub open spec fn answer_of(
    elements: spec_fn(int, int) -> int,
    ops: Seq<OpModel>,
    p: Point,
    steps: nat,
) -> Option<int>
    decreases steps,
{
    if steps == 0 || !(0 <= p.at < ops.len()) {
        None
    } else if ops[p.at] is Return {
        number_on(p.stack, 0)
    } else {
        match moved(elements, ops, p) {
            Some(q) => answer_of(elements, ops, q, (steps - 1) as nat),
            None => None,
        }
    }
}

/// Whether the elements of a view from one on are those at the same places of another.
pub open spec fn agree_from(
    elements: spec_fn(int, int) -> int,
    a: Span,
    b: Span,
    from: int,
) -> bool {
    forall|i: int|
        from <= i < b.length ==> elements(a.array, a.offset + i) == #[trigger] elements(
            b.array,
            b.offset + i,
        )
}

/// Whether a view starts with the elements of another.
pub open spec fn has_prefix(elements: spec_fn(int, int) -> int, a: Span, b: Span) -> bool {
    b.length <= a.length && agree_from(elements, a, b, 0)
}

/// The two views of a comparison, and the position that it has come to.
pub open spec fn compared(a: Span, b: Span, i: int) -> Map<u16, Cell> {
    Map::empty().insert(0u16, Cell::View { span: a }).insert(1u16, Cell::View { span: b }).insert(
        2u16,
        Cell::Number { number: i },
    )
}

/// The two views of a comparison.
pub open spec fn given(a: Span, b: Span) -> Map<u16, Cell> {
    Map::empty().insert(0u16, Cell::View { span: a }).insert(1u16, Cell::View { span: b })
}

/// An instruction that does not return is one step.
proof fn one_step(
    elements: spec_fn(int, int) -> int,
    ops: Seq<OpModel>,
    p: Point,
    q: Point,
    steps: nat,
)
    requires
        0 <= p.at < ops.len(),
        !(ops[p.at] is Return),
        moved(elements, ops, p) == Some(q),
        steps > 0,
    ensures
        answer_of(elements, ops, p, steps) == answer_of(elements, ops, q, (steps - 1) as nat),
{
}

/// The names of the fields of views and of the methods that compare them differ.
proof fn names_differ()
    ensures
        "length"@ != "offset"@,
        "length"@ != "array"@,
        "offset"@ != "array"@,
        "equals"@ != "sliceGetObject"@,
        "equals"@ != "sliceGetI8"@,
        "equals"@ != "sliceGetI32"@,
{
    reveal_strlit("length");
    reveal_strlit("offset");
    reveal_strlit("array");
    reveal_strlit("equals");
    reveal_strlit("sliceGetObject");
    reveal_strlit("sliceGetI8");
    reveal_strlit("sliceGetI32");
    assert("length"@[0] == 'l' && "offset"@[0] == 'o');
    assert("equals"@[0] == 'e' && "sliceGetObject"@[0] == 's');
    assert("sliceGetI8"@[0] == 's' && "sliceGetI32"@[0] == 's');
}

/// Whether code is the comparison of two views of objects.
pub open spec fn compares_objects(ops: Seq<OpModel>) -> bool {
    &&& ops.len() == 33
    &&& ops[0] == op_load(Kind::Reference, 1)
    &&& (ops[1] matches Op::GetField { member } && member.name == "length"@)
    &&& ops[2] == op_load(Kind::Reference, 0)
    &&& (ops[3] matches Op::GetField { member } && member.name == "length"@)
    &&& ops[4] == op_branch(Condition::IntIsGreater, 31)
    &&& ops[5] == op_push_int(0)
    &&& ops[6] == op_store(Kind::Int, 2)
    &&& ops[7] == op_load(Kind::Int, 2)
    &&& ops[8] == op_load(Kind::Reference, 1)
    &&& (ops[9] matches Op::GetField { member } && member.name == "length"@)
    &&& ops[10] == op_branch(Condition::IntIsAtLeast, 29)
    &&& ops[11] == op_load(Kind::Reference, 0)
    &&& (ops[12] matches Op::GetField { member } && member.name == "array"@)
    &&& ops[13] == op_load(Kind::Reference, 0)
    &&& (ops[14] matches Op::GetField { member } && member.name == "offset"@)
    &&& ops[15] == op_load(Kind::Int, 2)
    &&& ops[16] == op_add_int()
    &&& (ops[17] matches Op::InvokeStatic { member } && member.name != "equals"@)
    &&& ops[18] == op_load(Kind::Reference, 1)
    &&& (ops[19] matches Op::GetField { member } && member.name == "array"@)
    &&& ops[20] == op_load(Kind::Reference, 1)
    &&& (ops[21] matches Op::GetField { member } && member.name == "offset"@)
    &&& ops[22] == op_load(Kind::Int, 2)
    &&& ops[23] == op_add_int()
    &&& (ops[24] matches Op::InvokeStatic { member } && member.name != "equals"@)
    &&& (ops[25] matches Op::InvokeStatic { member } && member.name == "equals"@)
    &&& ops[26] == op_branch(Condition::IsZero, 31)
    &&& ops[27] == op_increment(2, 1)
    &&& ops[28] == op_goto(7)
    &&& ops[29] == op_push_int(1)
    &&& ops[30] == op_return(Kind::Int)
    &&& ops[31] == op_push_int(0)
    &&& ops[32] == op_return(Kind::Int)
}

/// From a position on, the comparison answers whether the rest of the second view is found there.
proof fn rest_of_objects_is_compared(
    elements: spec_fn(int, int) -> int,
    ops: Seq<OpModel>,
    a: Span,
    b: Span,
    i: int,
    steps: nat,
)
    requires
        compares_objects(ops),
        0 <= i <= b.length,
        steps >= 22 * (b.length - i) + 6,
    ensures
        answer_of(
            elements,
            ops,
            Point { at: 7, stack: Seq::empty(), locals: compared(a, b, i) },
            steps,
        ) == Some(
            if agree_from(elements, a, b, i) {
                1int
            } else {
                0int
            },
        ),
    decreases b.length - i,
{
    names_differ();
    let x = elements(a.array, a.offset + i);
    let y = elements(b.array, b.offset + i);
    let l = compared(a, b, i);
    let p0 = Point { at: 7, stack: Seq::<Cell>::empty(), locals: l };
    let p1 = Point { at: 8, stack: seq![Cell::Number { number: i }], locals: l };
    let p2 = Point { at: 9, stack: seq![Cell::Number { number: i }, Cell::View { span: b }],
        locals: l };
    let p3 = Point { at: 10, stack: seq![Cell::Number { number: i },
        Cell::Number { number: b.length }], locals: l };
    assert(moved(elements, ops, p0)->0.stack =~= p1.stack);
    one_step(elements, ops, p0, p1, steps);
    assert(moved(elements, ops, p1)->0.stack =~= p2.stack);
    one_step(elements, ops, p1, p2, (steps - 1) as nat);
    assert(moved(elements, ops, p2)->0.stack =~= p3.stack);
    one_step(elements, ops, p2, p3, (steps - 2) as nat);
    if i >= b.length {
        let q = Point { at: 29, stack: Seq::<Cell>::empty(), locals: l };
        assert(moved(elements, ops, p3)->0.stack =~= q.stack);
        one_step(elements, ops, p3, q, (steps - 3) as nat);
        let r = Point { at: 30, stack: seq![Cell::Number { number: 1 }], locals: l };
        assert(moved(elements, ops, q)->0.stack =~= r.stack);
        one_step(elements, ops, q, r, (steps - 4) as nat);
        assert(answer_of(elements, ops, r, (steps - 5) as nat) == Some(1int));
    } else {
        let p4 = Point { at: 11, stack: Seq::<Cell>::empty(), locals: l };
        let p5 = Point { at: 12, stack: seq![Cell::View { span: a }], locals: l };
        let p6 = Point { at: 13, stack: seq![Cell::Array { array: a.array }], locals: l };
        let p7 = Point { at: 14, stack: seq![Cell::Array { array: a.array },
            Cell::View { span: a }], locals: l };
        let p8 = Point { at: 15, stack: seq![Cell::Array { array: a.array },
            Cell::Number { number: a.offset }], locals: l };
        let p9 = Point { at: 16, stack: seq![Cell::Array { array: a.array },
            Cell::Number { number: a.offset }, Cell::Number { number: i }], locals: l };
        let p10 = Point { at: 17, stack: seq![Cell::Array { array: a.array },
            Cell::Number { number: a.offset + i }], locals: l };
        let p11 = Point { at: 18, stack: seq![Cell::Element { element: x }], locals: l };
        let p12 = Point { at: 19, stack: seq![Cell::Element { element: x }, Cell::View { span: b }],
            locals: l };
        let p13 = Point { at: 20, stack: seq![Cell::Element { element: x },
            Cell::Array { array: b.array }], locals: l };
        let p14 = Point { at: 21, stack: seq![Cell::Element { element: x },
            Cell::Array { array: b.array }, Cell::View { span: b }], locals: l };
        let p15 = Point { at: 22, stack: seq![Cell::Element { element: x },
            Cell::Array { array: b.array }, Cell::Number { number: b.offset }], locals: l };
        let p16 = Point { at: 23, stack: seq![Cell::Element { element: x },
            Cell::Array { array: b.array }, Cell::Number { number: b.offset },
            Cell::Number { number: i }], locals: l };
        let p17 = Point { at: 24, stack: seq![Cell::Element { element: x },
            Cell::Array { array: b.array }, Cell::Number { number: b.offset + i }], locals: l };
        let p18 = Point { at: 25, stack: seq![Cell::Element { element: x },
            Cell::Element { element: y }], locals: l };
        assert(moved(elements, ops, p3)->0.stack =~= p4.stack);
        one_step(elements, ops, p3, p4, (steps - 3) as nat);
        assert(moved(elements, ops, p4)->0.stack =~= p5.stack);
        one_step(elements, ops, p4, p5, (steps - 4) as nat);
        assert(moved(elements, ops, p5)->0.stack =~= p6.stack);
        one_step(elements, ops, p5, p6, (steps - 5) as nat);
        assert(moved(elements, ops, p6)->0.stack =~= p7.stack);
        one_step(elements, ops, p6, p7, (steps - 6) as nat);
        assert(moved(elements, ops, p7)->0.stack =~= p8.stack);
        one_step(elements, ops, p7, p8, (steps - 7) as nat);
        assert(moved(elements, ops, p8)->0.stack =~= p9.stack);
        one_step(elements, ops, p8, p9, (steps - 8) as nat);
        assert(moved(elements, ops, p9)->0.stack =~= p10.stack);
        one_step(elements, ops, p9, p10, (steps - 9) as nat);
        assert(moved(elements, ops, p10)->0.stack =~= p11.stack);
        one_step(elements, ops, p10, p11, (steps - 10) as nat);
        assert(moved(elements, ops, p11)->0.stack =~= p12.stack);
        one_step(elements, ops, p11, p12, (steps - 11) as nat);
        assert(moved(elements, ops, p12)->0.stack =~= p13.stack);
        one_step(elements, ops, p12, p13, (steps - 12) as nat);
        assert(moved(elements, ops, p13)->0.stack =~= p14.stack);
        one_step(elements, ops, p13, p14, (steps - 13) as nat);
        assert(moved(elements, ops, p14)->0.stack =~= p15.stack);
        one_step(elements, ops, p14, p15, (steps - 14) as nat);
        assert(moved(elements, ops, p15)->0.stack =~= p16.stack);
        one_step(elements, ops, p15, p16, (steps - 15) as nat);
        assert(moved(elements, ops, p16)->0.stack =~= p17.stack);
        one_step(elements, ops, p16, p17, (steps - 16) as nat);
        assert(moved(elements, ops, p17)->0.stack =~= p18.stack);
        one_step(elements, ops, p17, p18, (steps - 17) as nat);
        let e = Point {
            at: 26,
            stack: seq![Cell::Number { number: if x == y { 1int } else { 0int } }],
            locals: l,
        };
        assert(moved(elements, ops, p18)->0.stack =~= e.stack);
        one_step(elements, ops, p18, e, (steps - 18) as nat);
        if x == y {
            let c = Point { at: 27, stack: Seq::<Cell>::empty(), locals: l };
            assert(moved(elements, ops, e)->0.stack =~= c.stack);
            one_step(elements, ops, e, c, (steps - 19) as nat);
            let d = Point { at: 28, stack: Seq::<Cell>::empty(), locals: compared(a, b, i + 1) };
            assert(moved(elements, ops, c)->0.locals =~= d.locals);
            one_step(elements, ops, c, d, (steps - 20) as nat);
            let f = Point { at: 7, stack: Seq::<Cell>::empty(), locals: compared(a, b, i + 1) };
            one_step(elements, ops, d, f, (steps - 21) as nat);
            rest_of_objects_is_compared(elements, ops, a, b, i + 1, (steps - 22) as nat);
            assert(agree_from(elements, a, b, i) == agree_from(elements, a, b, i + 1)) by {
                if agree_from(elements, a, b, i + 1) {
                    assert forall|j: int| i <= j < b.length implies elements(
                        a.array,
                        a.offset + j,
                    ) == #[trigger] elements(b.array, b.offset + j) by {
                        if j == i {
                        }
                    }
                }
            }
        } else {
            let c = Point { at: 31, stack: Seq::<Cell>::empty(), locals: l };
            assert(moved(elements, ops, e)->0.stack =~= c.stack);
            one_step(elements, ops, e, c, (steps - 19) as nat);
            let d = Point { at: 32, stack: seq![Cell::Number { number: 0 }], locals: l };
            assert(moved(elements, ops, c)->0.stack =~= d.stack);
            one_step(elements, ops, c, d, (steps - 20) as nat);
            assert(answer_of(elements, ops, d, (steps - 21) as nat) == Some(0int));
            assert(!agree_from(elements, a, b, i));
        }
    }
}

/// The comparison of two views of objects answers one if the first view starts with the elements
/// of the
/// second one, and zero if it does not.
proof fn objects_are_compared(
    elements: spec_fn(int, int) -> int,
    ops: Seq<OpModel>,
    a: Span,
    b: Span,
    steps: nat,
)
    requires
        compares_objects(ops),
        0 <= a.length,
        0 <= b.length,
        steps >= 22 * b.length + 13,
    ensures
        answer_of(
            elements,
            ops,
            Point { at: 0, stack: Seq::empty(), locals: given(a, b) },
            steps,
        ) == Some(
            if has_prefix(elements, a, b) {
                1int
            } else {
                0int
            },
        ),
{
    names_differ();
    let l = given(a, b);
    let bl = Cell::Number { number: b.length };
    let al = Cell::Number { number: a.length };
    let p0 = Point { at: 0, stack: Seq::<Cell>::empty(), locals: l };
    let p1 = Point { at: 1, stack: seq![Cell::View { span: b }], locals: l };
    let p2 = Point { at: 2, stack: seq![bl], locals: l };
    let p3 = Point { at: 3, stack: seq![bl, Cell::View { span: a }], locals: l };
    let p4 = Point { at: 4, stack: seq![bl, al], locals: l };
    assert(moved(elements, ops, p0)->0.stack =~= p1.stack);
    one_step(elements, ops, p0, p1, steps);
    assert(moved(elements, ops, p1)->0.stack =~= p2.stack);
    one_step(elements, ops, p1, p2, (steps - 1) as nat);
    assert(moved(elements, ops, p2)->0.stack =~= p3.stack);
    one_step(elements, ops, p2, p3, (steps - 2) as nat);
    assert(moved(elements, ops, p3)->0.stack =~= p4.stack);
    one_step(elements, ops, p3, p4, (steps - 3) as nat);
    if b.length > a.length {
        let q = Point { at: 31, stack: Seq::<Cell>::empty(), locals: l };
        assert(moved(elements, ops, p4)->0.stack =~= q.stack);
        one_step(elements, ops, p4, q, (steps - 4) as nat);
        let r = Point { at: 32, stack: seq![Cell::Number { number: 0 }], locals: l };
        assert(moved(elements, ops, q)->0.stack =~= r.stack);
        one_step(elements, ops, q, r, (steps - 5) as nat);
        assert(answer_of(elements, ops, r, (steps - 6) as nat) == Some(0int));
    } else {
        let q = Point { at: 5, stack: Seq::<Cell>::empty(), locals: l };
        assert(moved(elements, ops, p4)->0.stack =~= q.stack);
        one_step(elements, ops, p4, q, (steps - 4) as nat);
        let r = Point { at: 6, stack: seq![Cell::Number { number: 0 }], locals: l };
        assert(moved(elements, ops, q)->0.stack =~= r.stack);
        one_step(elements, ops, q, r, (steps - 5) as nat);
        let s = Point { at: 7, stack: Seq::<Cell>::empty(), locals: compared(a, b, 0) };
        assert(moved(elements, ops, r)->0.stack =~= s.stack);
        assert(moved(elements, ops, r)->0.locals =~= s.locals);
        one_step(elements, ops, r, s, (steps - 6) as nat);
        rest_of_objects_is_compared(elements, ops, a, b, 0, (steps - 7) as nat);
    }
}

/// Whether code is the comparison of two views of numbers.
pub open spec fn compares_numbers(ops: Seq<OpModel>) -> bool {
    &&& ops.len() == 32
    &&& ops[0] == op_load(Kind::Reference, 1)
    &&& (ops[1] matches Op::GetField { member } && member.name == "length"@)
    &&& ops[2] == op_load(Kind::Reference, 0)
    &&& (ops[3] matches Op::GetField { member } && member.name == "length"@)
    &&& ops[4] == op_branch(Condition::IntIsGreater, 30)
    &&& ops[5] == op_push_int(0)
    &&& ops[6] == op_store(Kind::Int, 2)
    &&& ops[7] == op_load(Kind::Int, 2)
    &&& ops[8] == op_load(Kind::Reference, 1)
    &&& (ops[9] matches Op::GetField { member } && member.name == "length"@)
    &&& ops[10] == op_branch(Condition::IntIsAtLeast, 28)
    &&& ops[11] == op_load(Kind::Reference, 0)
    &&& (ops[12] matches Op::GetField { member } && member.name == "array"@)
    &&& ops[13] == op_load(Kind::Reference, 0)
    &&& (ops[14] matches Op::GetField { member } && member.name == "offset"@)
    &&& ops[15] == op_load(Kind::Int, 2)
    &&& ops[16] == op_add_int()
    &&& (ops[17] matches Op::InvokeStatic { member } && member.name != "equals"@)
    &&& ops[18] == op_load(Kind::Reference, 1)
    &&& (ops[19] matches Op::GetField { member } && member.name == "array"@)
    &&& ops[20] == op_load(Kind::Reference, 1)
    &&& (ops[21] matches Op::GetField { member } && member.name == "offset"@)
    &&& ops[22] == op_load(Kind::Int, 2)
    &&& ops[23] == op_add_int()
    &&& (ops[24] matches Op::InvokeStatic { member } && member.name != "equals"@)
    &&& ops[25] == op_branch(Condition::IntsDiffer, 30)
    &&& ops[26] == op_increment(2, 1)
    &&& ops[27] == op_goto(7)
    &&& ops[28] == op_push_int(1)
    &&& ops[29] == op_return(Kind::Int)
    &&& ops[30] == op_push_int(0)
    &&& ops[31] == op_return(Kind::Int)
}

/// From a position on, the comparison answers whether the rest of the second view is found there.
proof fn rest_of_numbers_is_compared(
    elements: spec_fn(int, int) -> int,
    ops: Seq<OpModel>,
    a: Span,
    b: Span,
    i: int,
    steps: nat,
)
    requires
        compares_numbers(ops),
        0 <= i <= b.length,
        steps >= 21 * (b.length - i) + 6,
    ensures
        answer_of(
            elements,
            ops,
            Point { at: 7, stack: Seq::empty(), locals: compared(a, b, i) },
            steps,
        ) == Some(
            if agree_from(elements, a, b, i) {
                1int
            } else {
                0int
            },
        ),
    decreases b.length - i,
{
    names_differ();
    let x = elements(a.array, a.offset + i);
    let y = elements(b.array, b.offset + i);
    let l = compared(a, b, i);
    let p0 = Point { at: 7, stack: Seq::<Cell>::empty(), locals: l };
    let p1 = Point { at: 8, stack: seq![Cell::Number { number: i }], locals: l };
    let p2 = Point { at: 9, stack: seq![Cell::Number { number: i }, Cell::View { span: b }],
        locals: l };
    let p3 = Point { at: 10, stack: seq![Cell::Number { number: i },
        Cell::Number { number: b.length }], locals: l };
    assert(moved(elements, ops, p0)->0.stack =~= p1.stack);
    one_step(elements, ops, p0, p1, steps);
    assert(moved(elements, ops, p1)->0.stack =~= p2.stack);
    one_step(elements, ops, p1, p2, (steps - 1) as nat);
    assert(moved(elements, ops, p2)->0.stack =~= p3.stack);
    one_step(elements, ops, p2, p3, (steps - 2) as nat);
    if i >= b.length {
        let q = Point { at: 28, stack: Seq::<Cell>::empty(), locals: l };
        assert(moved(elements, ops, p3)->0.stack =~= q.stack);
        one_step(elements, ops, p3, q, (steps - 3) as nat);
        let r = Point { at: 29, stack: seq![Cell::Number { number: 1 }], locals: l };
        assert(moved(elements, ops, q)->0.stack =~= r.stack);
        one_step(elements, ops, q, r, (steps - 4) as nat);
        assert(answer_of(elements, ops, r, (steps - 5) as nat) == Some(1int));
    } else {
        let p4 = Point { at: 11, stack: Seq::<Cell>::empty(), locals: l };
        let p5 = Point { at: 12, stack: seq![Cell::View { span: a }], locals: l };
        let p6 = Point { at: 13, stack: seq![Cell::Array { array: a.array }], locals: l };
        let p7 = Point { at: 14, stack: seq![Cell::Array { array: a.array },
            Cell::View { span: a }], locals: l };
        let p8 = Point { at: 15, stack: seq![Cell::Array { array: a.array },
            Cell::Number { number: a.offset }], locals: l };
        let p9 = Point { at: 16, stack: seq![Cell::Array { array: a.array },
            Cell::Number { number: a.offset }, Cell::Number { number: i }], locals: l };
        let p10 = Point { at: 17, stack: seq![Cell::Array { array: a.array },
            Cell::Number { number: a.offset + i }], locals: l };
        let p11 = Point { at: 18, stack: seq![Cell::Element { element: x }], locals: l };
        let p12 = Point { at: 19, stack: seq![Cell::Element { element: x }, Cell::View { span: b }],
            locals: l };
        let p13 = Point { at: 20, stack: seq![Cell::Element { element: x },
            Cell::Array { array: b.array }], locals: l };
        let p14 = Point { at: 21, stack: seq![Cell::Element { element: x },
            Cell::Array { array: b.array }, Cell::View { span: b }], locals: l };
        let p15 = Point { at: 22, stack: seq![Cell::Element { element: x },
            Cell::Array { array: b.array }, Cell::Number { number: b.offset }], locals: l };
        let p16 = Point { at: 23, stack: seq![Cell::Element { element: x },
            Cell::Array { array: b.array }, Cell::Number { number: b.offset },
            Cell::Number { number: i }], locals: l };
        let p17 = Point { at: 24, stack: seq![Cell::Element { element: x },
            Cell::Array { array: b.array }, Cell::Number { number: b.offset + i }], locals: l };
        let p18 = Point { at: 25, stack: seq![Cell::Element { element: x },
            Cell::Element { element: y }], locals: l };
        assert(moved(elements, ops, p3)->0.stack =~= p4.stack);
        one_step(elements, ops, p3, p4, (steps - 3) as nat);
        assert(moved(elements, ops, p4)->0.stack =~= p5.stack);
        one_step(elements, ops, p4, p5, (steps - 4) as nat);
        assert(moved(elements, ops, p5)->0.stack =~= p6.stack);
        one_step(elements, ops, p5, p6, (steps - 5) as nat);
        assert(moved(elements, ops, p6)->0.stack =~= p7.stack);
        one_step(elements, ops, p6, p7, (steps - 6) as nat);
        assert(moved(elements, ops, p7)->0.stack =~= p8.stack);
        one_step(elements, ops, p7, p8, (steps - 7) as nat);
        assert(moved(elements, ops, p8)->0.stack =~= p9.stack);
        one_step(elements, ops, p8, p9, (steps - 8) as nat);
        assert(moved(elements, ops, p9)->0.stack =~= p10.stack);
        one_step(elements, ops, p9, p10, (steps - 9) as nat);
        assert(moved(elements, ops, p10)->0.stack =~= p11.stack);
        one_step(elements, ops, p10, p11, (steps - 10) as nat);
        assert(moved(elements, ops, p11)->0.stack =~= p12.stack);
        one_step(elements, ops, p11, p12, (steps - 11) as nat);
        assert(moved(elements, ops, p12)->0.stack =~= p13.stack);
        one_step(elements, ops, p12, p13, (steps - 12) as nat);
        assert(moved(elements, ops, p13)->0.stack =~= p14.stack);
        one_step(elements, ops, p13, p14, (steps - 13) as nat);
        assert(moved(elements, ops, p14)->0.stack =~= p15.stack);
        one_step(elements, ops, p14, p15, (steps - 14) as nat);
        assert(moved(elements, ops, p15)->0.stack =~= p16.stack);
        one_step(elements, ops, p15, p16, (steps - 15) as nat);
        assert(moved(elements, ops, p16)->0.stack =~= p17.stack);
        one_step(elements, ops, p16, p17, (steps - 16) as nat);
        assert(moved(elements, ops, p17)->0.stack =~= p18.stack);
        one_step(elements, ops, p17, p18, (steps - 17) as nat);
        if x == y {
            let c = Point { at: 26, stack: Seq::<Cell>::empty(), locals: l };
            assert(moved(elements, ops, p18)->0.stack =~= c.stack);
            one_step(elements, ops, p18, c, (steps - 18) as nat);
            let d = Point { at: 27, stack: Seq::<Cell>::empty(), locals: compared(a, b, i + 1) };
            assert(moved(elements, ops, c)->0.locals =~= d.locals);
            one_step(elements, ops, c, d, (steps - 19) as nat);
            let f = Point { at: 7, stack: Seq::<Cell>::empty(), locals: compared(a, b, i + 1) };
            one_step(elements, ops, d, f, (steps - 20) as nat);
            rest_of_numbers_is_compared(elements, ops, a, b, i + 1, (steps - 21) as nat);
            assert(agree_from(elements, a, b, i) == agree_from(elements, a, b, i + 1)) by {
                if agree_from(elements, a, b, i + 1) {
                    assert forall|j: int| i <= j < b.length implies elements(
                        a.array,
                        a.offset + j,
                    ) == #[trigger] elements(b.array, b.offset + j) by {
                        if j == i {
                        }
                    }
                }
            }
        } else {
            let c = Point { at: 30, stack: Seq::<Cell>::empty(), locals: l };
            assert(moved(elements, ops, p18)->0.stack =~= c.stack);
            one_step(elements, ops, p18, c, (steps - 18) as nat);
            let d = Point { at: 31, stack: seq![Cell::Number { number: 0 }], locals: l };
            assert(moved(elements, ops, c)->0.stack =~= d.stack);
            one_step(elements, ops, c, d, (steps - 19) as nat);
            assert(answer_of(elements, ops, d, (steps - 20) as nat) == Some(0int));
            assert(!agree_from(elements, a, b, i));
        }
    }
}

/// The comparison of two views of numbers answers one if the first view starts with the elements
/// of the
/// second one, and zero if it does not.
proof fn numbers_are_compared(
    elements: spec_fn(int, int) -> int,
    ops: Seq<OpModel>,
    a: Span,
    b: Span,
    steps: nat,
)
    requires
        compares_numbers(ops),
        0 <= a.length,
        0 <= b.length,
        steps >= 21 * b.length + 13,
    ensures
        answer_of(
            elements,
            ops,
            Point { at: 0, stack: Seq::empty(), locals: given(a, b) },
            steps,
        ) == Some(
            if has_prefix(elements, a, b) {
                1int
            } else {
                0int
            },
        ),
{
    names_differ();
    let l = given(a, b);
    let bl = Cell::Number { number: b.length };
    let al = Cell::Number { number: a.length };
    let p0 = Point { at: 0, stack: Seq::<Cell>::empty(), locals: l };
    let p1 = Point { at: 1, stack: seq![Cell::View { span: b }], locals: l };
    let p2 = Point { at: 2, stack: seq![bl], locals: l };
    let p3 = Point { at: 3, stack: seq![bl, Cell::View { span: a }], locals: l };
    let p4 = Point { at: 4, stack: seq![bl, al], locals: l };
    assert(moved(elements, ops, p0)->0.stack =~= p1.stack);
    one_step(elements, ops, p0, p1, steps);
    assert(moved(elements, ops, p1)->0.stack =~= p2.stack);
    one_step(elements, ops, p1, p2, (steps - 1) as nat);
    assert(moved(elements, ops, p2)->0.stack =~= p3.stack);
    one_step(elements, ops, p2, p3, (steps - 2) as nat);
    assert(moved(elements, ops, p3)->0.stack =~= p4.stack);
    one_step(elements, ops, p3, p4, (steps - 3) as nat);
    if b.length > a.length {
        let q = Point { at: 30, stack: Seq::<Cell>::empty(), locals: l };
        assert(moved(elements, ops, p4)->0.stack =~= q.stack);
        one_step(elements, ops, p4, q, (steps - 4) as nat);
        let r = Point { at: 31, stack: seq![Cell::Number { number: 0 }], locals: l };
        assert(moved(elements, ops, q)->0.stack =~= r.stack);
        one_step(elements, ops, q, r, (steps - 5) as nat);
        assert(answer_of(elements, ops, r, (steps - 6) as nat) == Some(0int));
    } else {
        let q = Point { at: 5, stack: Seq::<Cell>::empty(), locals: l };
        assert(moved(elements, ops, p4)->0.stack =~= q.stack);
        one_step(elements, ops, p4, q, (steps - 4) as nat);
        let r = Point { at: 6, stack: seq![Cell::Number { number: 0 }], locals: l };
        assert(moved(elements, ops, q)->0.stack =~= r.stack);
        one_step(elements, ops, q, r, (steps - 5) as nat);
        let s = Point { at: 7, stack: Seq::<Cell>::empty(), locals: compared(a, b, 0) };
        assert(moved(elements, ops, r)->0.stack =~= s.stack);
        assert(moved(elements, ops, r)->0.locals =~= s.locals);
        one_step(elements, ops, r, s, (steps - 6) as nat);
        rest_of_numbers_is_compared(elements, ops, a, b, 0, (steps - 7) as nat);
    }
}

/// The code of the method that a function adds to a class.
pub open spec fn added_ops(methods: Seq<JvmMethodModel>) -> Seq<OpModel> {
    methods.last().body->ops
}

/// The methods of slices and of text that compare two views answer one if the first view starts
/// with the elements of the second one, and zero if it does not, wherever the elements are read
/// from.
pub proof fn views_are_compared_by_their_elements(
    elements: spec_fn(int, int) -> int,
    methods: Seq<JvmMethodModel>,
    a: Span,
    b: Span,
    steps: nat,
)
    requires
        0 <= a.length,
        0 <= b.length,
        steps >= 22 * b.length + 13,
    ensures
        ({
            let start = Point { at: 0, stack: Seq::empty(), locals: given(a, b) };
            let expected = Some(
                if has_prefix(elements, a, b) {
                    1int
                } else {
                    0int
                },
            );
            &&& answer_of(elements, added_ops(slice_starts_with(methods)), start, steps) == expected
            &&& answer_of(
                elements,
                added_ops(slice_starts_with_i8(methods)),
                start,
                steps,
            ) == expected
            &&& answer_of(
                elements,
                added_ops(slice_starts_with_i32(methods)),
                start,
                steps,
            ) == expected
            &&& answer_of(elements, added_ops(text_starts_with(methods)), start, steps) == expected
        }),
{
    names_differ();
    objects_are_compared_as_such(methods);
    numbers_are_compared_as_such(methods);
    objects_are_compared(elements, added_ops(slice_starts_with(methods)), a, b, steps);
    numbers_are_compared(elements, added_ops(slice_starts_with_i8(methods)), a, b, steps);
    numbers_are_compared(elements, added_ops(slice_starts_with_i32(methods)), a, b, steps);
    numbers_are_compared(elements, added_ops(text_starts_with(methods)), a, b, steps);
}

/// The comparison of slices of any elements is one of objects.
proof fn objects_are_compared_as_such(methods: Seq<JvmMethodModel>)
    ensures
        compares_objects(added_ops(slice_starts_with(methods))),
{
    reveal(slice_starts_with);
    names_differ();
}

/// The comparisons of slices of numbers and of text are ones of numbers.
proof fn numbers_are_compared_as_such(methods: Seq<JvmMethodModel>)
    ensures
        compares_numbers(added_ops(slice_starts_with_i8(methods))),
        compares_numbers(added_ops(slice_starts_with_i32(methods))),
        compares_numbers(added_ops(text_starts_with(methods))),
{
    reveal(slice_starts_with_i8);
    reveal(slice_starts_with_i32);
    reveal(text_starts_with);
    names_differ();
}

} // verus!
