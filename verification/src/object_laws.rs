//! What constructors set, copies hold and bridges hand on.
use crate::bridges::{
    instance_bridge, params_pushed, receiver_params, relative_bridge, relative_signature,
};
use crate::class_methods::{
    RELATIVE_POINTER_METHOD_SUFFIX, byte_offset_field, copy_method, element_offset_field,
    field_constructor, field_copied, field_put, field_puts, fields_copied, local_plus,
    pointer_put, relative_constructor, relative_puts, relative_slots, setting_descriptor,
    slots_before, super_called,
};
use crate::codec::is_pointer;
use crate::descriptor::{is_reference, method_descriptor};
use crate::jvm_ops::{
    Kind, Op, OpModel, kind_of, no_ops, op_dup, op_invoke_special, op_invoke_static,
    op_invoke_virtual, op_new, op_pushed, op_return,
};
use crate::oomir::{SignatureModel, Text, Type, TypeModel, has_value};
use vstd::prelude::*;
use vstd::string::*;

verus! {

/// What the fields of an object hold.
pub type Contents = spec_fn(Text) -> int;

/// What a method finds: its local variables, the fields of the object that it is called on, and
/// what the runtime makes of values.
pub struct Given {
    pub locals: spec_fn(u16) -> int,
    pub fields: Contents,
    /// The copy of an object.
    pub copy: spec_fn(int) -> int,
    /// The pointer that is off by elements and bytes.
    pub settle: spec_fn(int, int, int) -> int,
}

/// The contents with a value for one field.
pub open spec fn with_content(contents: Contents, name: Text, value: int) -> Contents {
    |other: Text|
        if other == name {
            value
        } else {
            contents(other)
        }
}

/// The stack and the contents of the object behind an instruction. References to the object itself
/// are values like others.
pub open spec fn moved_on(g: Given, op: OpModel, stack: Seq<int>, contents: Contents) -> (
    Seq<int>,
    Contents,
) {
    let n = stack.len() as int;
    match op {
        Op::Load { local, .. } => (stack.push((g.locals)(local)), contents),
        Op::PutField { member } => (
            stack.take(n - 2),
            with_content(contents, member.name, stack[n - 1]),
        ),
        Op::GetField { member } => (stack.take(n - 1).push((g.fields)(member.name)), contents),
        Op::InvokeStatic { member } => if member.name == "materializeRelative"@ {
            (
                stack.take(n - 3).push((g.settle)(stack[n - 3], stack[n - 2], stack[n - 1])),
                contents,
            )
        } else {
            (stack.take(n - 1).push((g.copy)(stack[n - 1])), contents)
        },
        Op::InvokeSpecial { .. } => (stack.take(n - 1), contents),
        Op::New { .. } => (stack.push(0), contents),
        Op::PushLongZero => (stack.push(0), contents),
        Op::Dup => (stack.push(stack[n - 1]), contents),
        _ => (stack, contents),
    }
}

/// The stack and the contents behind the first instructions.
pub open spec fn run_of(
    g: Given,
    ops: Seq<OpModel>,
    n: nat,
    stack: Seq<int>,
    contents: Contents,
) -> (Seq<int>, Contents)
    decreases n,
{
    if n == 0 || n > ops.len() {
        (stack, contents)
    } else {
        let (s, c) = run_of(g, ops, (n - 1) as nat, stack, contents);
        moved_on(g, ops[n - 1], s, c)
    }
}

/// Instructions run alike at the beginning of longer code.
pub proof fn run_begins_alike(
    g: Given,
    ops: Seq<OpModel>,
    longer: Seq<OpModel>,
    n: nat,
    stack: Seq<int>,
    contents: Contents,
)
    requires
        n <= ops.len() <= longer.len(),
        forall|i: int| 0 <= i < ops.len() ==> #[trigger] longer[i] == ops[i],
    ensures
        run_of(g, longer, n, stack, contents) == run_of(g, ops, n, stack, contents),
    decreases n,
{
    if n > 0 {
        run_begins_alike(g, ops, longer, (n - 1) as nat, stack, contents);
    }
}

/// Whether the names of fields differ.
pub open spec fn names_are_distinct(fields: Seq<(Text, TypeModel)>) -> bool {
    forall|i: int, j: int|
        0 <= i < fields.len() && 0 <= j < fields.len() && (#[trigger] fields[i]).0 == (
        #[trigger] fields[j]).0 ==> i == j
}

/// Whether a constructor finds a value for each field where the JVM puts its arguments: one behind
/// the other, in as many variables as the type takes.
pub open spec fn are_arguments(
    g: Given,
    fields: Seq<(Text, TypeModel)>,
    values: Seq<int>,
) -> bool {
    forall|i: int|
        0 <= i < fields.len() && has_value((#[trigger] fields[i]).1) ==> (g.locals)(
            (1 + slots_before(fields, i as nat)) as u16,
        ) == values[i]
}

/// Setting the first fields sets each of them to its argument.
proof fn puts_set_fields(
    g: Given,
    class_name: Text,
    fields: Seq<(Text, TypeModel)>,
    n: nat,
    ops: Seq<OpModel>,
    contents: Contents,
    values: Seq<int>,
)
    requires
        n <= fields.len(),
        names_are_distinct(fields),
        are_arguments(g, fields, values),
        run_of(g, ops, ops.len(), Seq::empty(), contents) == (Seq::<int>::empty(), contents),
    ensures
        ({
            let all = field_puts(class_name, fields, n, ops);
            let (stack, set) = run_of(g, all, all.len(), Seq::empty(), contents);
            &&& ops.len() <= all.len()
            &&& forall|i: int| 0 <= i < ops.len() ==> #[trigger] all[i] == ops[i]
            &&& stack == Seq::<int>::empty()
            &&& forall|i: int|
                0 <= i < n && has_value((#[trigger] fields[i]).1) ==> set(fields[i].0) == values[i]
        }),
    decreases n,
{
    reveal(field_put);
    if n > 0 {
        let less = (n - 1) as nat;
        puts_set_fields(g, class_name, fields, less, ops, contents, values);
        let before = field_puts(class_name, fields, less, ops);
        let all = field_puts(class_name, fields, n, ops);
        let field = fields[n - 1];
        if has_value(field.1) {
            let none = Seq::<int>::empty();
            let (stack, set) = run_of(g, before, before.len(), none, contents);
            run_begins_alike(g, before, all, before.len(), none, contents);
            let m = before.len();
            let local = (1 + slots_before(fields, less)) as u16;
            let s1 = none.push((g.locals)(0));
            let s2 = s1.push((g.locals)(local));
            assert(run_of(g, all, m, none, contents) == (none, set));
            assert(run_of(g, all, m + 1, none, contents) == (s1, set));
            assert(run_of(g, all, m + 2, none, contents) == (s2, set));
            let last = with_content(set, field.0, s2[1]);
            assert(s2.take(0) =~= none);
            assert(run_of(g, all, m + 3, none, contents) == (none, last));
            assert(all.len() == m + 3);
            assert forall|i: int|
                0 <= i < n && has_value((#[trigger] fields[i]).1) implies last(fields[i].0)
                == values[i] by {
                if i < n - 1 {
                    assert(fields[i].0 != field.0);
                }
            }
        }
    }
}

/// The constructor of a class sets each field that has a JVM value to its argument.
pub proof fn constructor_sets_each_field(
    g: Given,
    this_class: Text,
    super_class: Text,
    fields: Seq<(Text, TypeModel)>,
    contents: Contents,
    values: Seq<int>,
    i: int,
)
    requires
        names_are_distinct(fields),
        are_arguments(g, fields, values),
        0 <= i < fields.len(),
        has_value(fields[i].1),
    ensures
        ({
            let ops = field_constructor(this_class, super_class, fields).body->ops;
            let (stack, set) = run_of(g, ops, ops.len(), Seq::empty(), contents);
            &&& ops.last() == op_return(Kind::Nothing)
            &&& stack == Seq::<int>::empty()
            &&& set(fields[i].0) == values[i]
        }),
{
    let start = super_called(super_class, no_ops());
    super_call_is_neutral(g, super_class, contents);
    puts_set_fields(g, this_class, fields, fields.len(), start, contents, values);
    let before = field_puts(this_class, fields, fields.len(), start);
    return_is_neutral(g, before, contents);
}

/// A return without result leaves stack and fields as they were.
proof fn return_is_neutral(g: Given, before: Seq<OpModel>, contents: Contents)
    ensures
        ({
            let ops = op_pushed(op_return(Kind::Nothing), before);
            run_of(g, ops, ops.len(), Seq::empty(), contents) == run_of(
                g,
                before,
                before.len(),
                Seq::empty(),
                contents,
            )
        }),
{
    let none = Seq::<int>::empty();
    let ops = op_pushed(op_return(Kind::Nothing), before);
    run_begins_alike(g, before, ops, before.len(), none, contents);
    assert(ops.len() - 1 == before.len());
}

/// Calling the constructor of the superclass leaves stack and fields as they were.
proof fn super_call_is_neutral(g: Given, super_class: Text, contents: Contents)
    ensures
        ({
            let ops = super_called(super_class, no_ops());
            run_of(g, ops, ops.len(), Seq::empty(), contents) == (Seq::<int>::empty(), contents)
        }),
{
    reveal(super_called);
    let none = Seq::<int>::empty();
    let ops = super_called(super_class, no_ops());
    let s1 = none.push((g.locals)(0));
    assert(ops.len() == 2);
    assert(run_of(g, ops, 0, none, contents) == (none, contents));
    assert(run_of(g, ops, 1, none, contents) == (s1, contents));
    assert(s1.take(0) =~= none);
    assert(run_of(g, ops, 2, none, contents) == (none, contents));
}

/// The value of a field in a copy: a pointer with its offsets settled, the copy of another object,
/// or the number itself.
pub open spec fn copied_value(g: Given, field: (Text, TypeModel)) -> int {
    let value = (g.fields)(field.0);
    if is_pointer(field.1) {
        (g.settle)(
            value,
            (g.fields)(element_offset_field(field.0)),
            (g.fields)(byte_offset_field(field.0)),
        )
    } else if is_reference(field.1) {
        (g.copy)(value)
    } else {
        value
    }
}

/// Copying the first fields pushes the values that the copy is to hold.
proof fn copies_push_values(
    g: Given,
    class_name: Text,
    fields: Seq<(Text, TypeModel)>,
    n: nat,
    ops: Seq<OpModel>,
    contents: Contents,
    below: Seq<int>,
)
    requires
        n <= fields.len(),
        run_of(g, ops, ops.len(), Seq::empty(), contents) == (below, contents),
    ensures
        ({
            let all = fields_copied(class_name, fields, n, ops);
            &&& ops.len() <= all.len()
            &&& run_of(g, all, all.len(), Seq::empty(), contents) == (
                below + Seq::new(n, |i: int| copied_value(g, fields[i])),
                contents,
            )
        }),
    decreases n,
{
    reveal(field_copied);
    reveal_strlit("materializeRelative");
    reveal_strlit("copyManagedValue");
    assert("materializeRelative"@ != "copyManagedValue"@) by {
        assert("materializeRelative"@[0] == 'm' && "copyManagedValue"@[0] == 'c');
    }
    let none = Seq::<int>::empty();
    let pushed = Seq::new(n, |i: int| copied_value(g, fields[i]));
    if n > 0 {
        let less = (n - 1) as nat;
        copies_push_values(g, class_name, fields, less, ops, contents, below);
        let before = fields_copied(class_name, fields, less, ops);
        let all = fields_copied(class_name, fields, n, ops);
        let field = fields[n - 1];
        let s0 = below + Seq::new(less, |i: int| copied_value(g, fields[i]));
        run_begins_alike(g, before, all, before.len(), none, contents);
        let m = before.len();
        let this = (g.locals)(0);
        let value = (g.fields)(field.0);
        let s1 = s0.push(this);
        let s2 = s0.push(value);
        assert(run_of(g, all, m, none, contents) == (s0, contents));
        assert(run_of(g, all, m + 1, none, contents) == (s1, contents));
        assert(s1.take(s1.len() - 1).push(value) =~= s2);
        assert(run_of(g, all, m + 2, none, contents) == (s2, contents));
        let last = s0.push(copied_value(g, field));
        if is_pointer(field.1) {
            let e = (g.fields)(element_offset_field(field.0));
            let b = (g.fields)(byte_offset_field(field.0));
            let s3 = s2.push(this);
            let s4 = s2.push(e);
            let s5 = s4.push(this);
            let s6 = s4.push(b);
            assert(run_of(g, all, m + 3, none, contents) == (s3, contents));
            assert(s3.take(s3.len() - 1).push(e) =~= s4);
            assert(run_of(g, all, m + 4, none, contents) == (s4, contents));
            assert(run_of(g, all, m + 5, none, contents) == (s5, contents));
            assert(s5.take(s5.len() - 1).push(b) =~= s6);
            assert(run_of(g, all, m + 6, none, contents) == (s6, contents));
            assert(s6.take(s6.len() - 3) =~= s0);
            assert(run_of(g, all, m + 7, none, contents) == (last, contents));
            assert(all.len() == m + 7);
        } else if is_reference(field.1) {
            assert(s2.take(s2.len() - 1) =~= s0);
            assert(run_of(g, all, m + 3, none, contents) == (last, contents));
            assert(run_of(g, all, m + 4, none, contents) == (last, contents));
            assert(all.len() == m + 4);
        } else {
            assert(all.len() == m + 2);
            assert(last == s2);
        }
        assert(last =~= below + pushed);
    } else {
        assert(below + pushed =~= below);
    }
}

/// The method that copies an object hands its constructor the value of each field, with pointers
/// settled and other objects copied, in the order of the fields.
pub proof fn copy_hands_on_each_field(
    g: Given,
    class_name: Text,
    fields: Seq<(Text, TypeModel)>,
    contents: Contents,
)
    ensures
        ({
            let ops = copy_method(class_name, fields).body->ops;
            let n = ops.len() as int;
            let (stack, _) = run_of(g, ops, (n - 2) as nat, Seq::empty(), contents);
            &&& n >= 4
            &&& ops[n - 2] == op_invoke_special(
                crate::jvm_ops::member(class_name, "<init>"@, setting_descriptor(fields)),
            )
            &&& ops[n - 1] == op_return(Kind::Reference)
            &&& stack.len() == 2 + fields.len()
            &&& forall|i: int|
                0 <= i < fields.len() ==> stack[2 + i] == copied_value(g, #[trigger] fields[i])
        }),
{
    let none = Seq::<int>::empty();
    let start = op_pushed(op_dup(), op_pushed(op_new(class_name), no_ops()));
    let below = none.push(0).push(0);
    assert(start.len() == 2);
    assert(run_of(g, start, 0, none, contents) == (none, contents));
    assert(run_of(g, start, 1, none, contents) == (none.push(0), contents));
    assert(run_of(g, start, 2, none, contents) == (below, contents));
    copies_push_values(g, class_name, fields, fields.len(), start, contents, below);
    let before = fields_copied(class_name, fields, fields.len(), start);
    let ops = copy_method(class_name, fields).body->ops;
    run_begins_alike(g, before, ops, before.len(), none, contents);
    assert(ops.len() == before.len() + 2);
}

/// What a bridge hands on for its first parameters: each that has a JVM value, in its order, and
/// two
/// offsets of zero behind a pointer if offsets are asked for.
pub open spec fn handed_on(
    g: Given,
    params: Seq<(Text, TypeModel)>,
    with_offsets: bool,
    n: nat,
) -> Seq<int>
    decreases n,
{
    if n == 0 || n > params.len() {
        Seq::empty()
    } else {
        let before = handed_on(g, params, with_offsets, (n - 1) as nat);
        let ty = params[n - 1].1;
        if !has_value(ty) {
            before
        } else {
            let own = before.push((g.locals)(slots_before(params, (n - 1) as nat) as u16));
            if with_offsets && is_pointer(ty) {
                own.push(0).push(0)
            } else {
                own
            }
        }
    }
}

/// The code that pushes parameters pushes what is handed on.
proof fn parameters_are_pushed(
    g: Given,
    params: Seq<(Text, TypeModel)>,
    with_offsets: bool,
    n: nat,
    contents: Contents,
)
    requires
        n <= params.len(),
    ensures
        ({
            let ops = params_pushed(params, with_offsets, n, no_ops());
            run_of(g, ops, ops.len(), Seq::empty(), contents) == (
                handed_on(g, params, with_offsets, n),
                contents,
            )
        }),
    decreases n,
{
    let none = Seq::<int>::empty();
    if n > 0 {
        let less = (n - 1) as nat;
        parameters_are_pushed(g, params, with_offsets, less, contents);
        let before = params_pushed(params, with_offsets, less, no_ops());
        let all = params_pushed(params, with_offsets, n, no_ops());
        let ty = params[n - 1].1;
        if has_value(ty) {
            run_begins_alike(g, before, all, before.len(), none, contents);
            let m = before.len();
            let s0 = handed_on(g, params, with_offsets, less);
            let s1 = s0.push((g.locals)(slots_before(params, less) as u16));
            assert(run_of(g, all, m, none, contents) == (s0, contents));
            assert(run_of(g, all, m + 1, none, contents) == (s1, contents));
            if with_offsets && is_pointer(ty) {
                assert(run_of(g, all, m + 2, none, contents) == (s1.push(0), contents));
                assert(run_of(g, all, m + 3, none, contents) == (s1.push(0).push(0), contents));
                assert(all.len() == m + 3);
            } else {
                assert(all.len() == m + 1);
            }
        }
    }
}

/// The bridge to a method whose pointers come with offsets hands on every argument in its order,
/// with two offsets of zero behind each pointer, and returns what the method returns.
pub proof fn relative_bridge_hands_on_each_argument(
    g: Given,
    class_name: Text,
    method_name: Text,
    signature: SignatureModel,
    access: u16,
    contents: Contents,
)
    ensures
        ({
            let ops = relative_bridge(class_name, method_name, signature, access).body->ops;
            let params = signature.params;
            let n = ops.len() as int;
            &&& n >= 2
            &&& ops[n - 2] == op_invoke_static(
                crate::jvm_ops::member(
                    class_name,
                    method_name + RELATIVE_POINTER_METHOD_SUFFIX@,
                    method_descriptor(relative_signature(signature)),
                ),
            )
            &&& ops[n - 1] == op_return(kind_of(signature.ret))
            &&& run_of(g, ops, (n - 2) as nat, Seq::empty(), contents).0 == handed_on(
                g,
                params,
                true,
                params.len(),
            )
        }),
{
    let params = signature.params;
    let ops = relative_bridge(class_name, method_name, signature, access).body->ops;
    let before = params_pushed(params, true, params.len(), no_ops());
    parameters_are_pushed(g, params, true, params.len(), contents);
    run_begins_alike(g, before, ops, before.len(), Seq::empty(), contents);
    assert(ops.len() == before.len() + 2);
}

/// The static bridge to a method of an object hands on the object and every argument in their
/// order, and returns what the method returns.
pub proof fn static_bridge_hands_on_each_argument(
    g: Given,
    class_name: Text,
    method_name: Text,
    signature: SignatureModel,
    contents: Contents,
)
    ensures
        ({
            let ops = instance_bridge(class_name, method_name, signature).body->ops;
            let params = receiver_params(class_name, signature.params);
            let n = ops.len() as int;
            &&& n >= 2
            &&& ops[n - 2] == op_invoke_virtual(
                crate::jvm_ops::member(class_name, method_name, method_descriptor(signature)),
            )
            &&& ops[n - 1] == op_return(kind_of(signature.ret))
            &&& run_of(g, ops, (n - 2) as nat, Seq::empty(), contents).0 == handed_on(
                g,
                params,
                false,
                params.len(),
            )
        }),
{
    let params = receiver_params(class_name, signature.params);
    let ops = instance_bridge(class_name, method_name, signature).body->ops;
    let before = params_pushed(params, false, params.len(), no_ops());
    parameters_are_pushed(g, params, false, params.len(), contents);
    run_begins_alike(g, before, ops, before.len(), Seq::empty(), contents);
    assert(ops.len() == before.len() + 2);
}

/// Whether a constructor with offsets finds them behind each pointer: the elements in the two
/// variables behind it, and the bytes in the two after these.
pub open spec fn are_relative_arguments(
    g: Given,
    fields: Seq<(Text, TypeModel)>,
    values: Seq<(int, int, int)>,
) -> bool {
    forall|i: int|
        0 <= i < fields.len() ==> {
            let local = (1 + relative_slots(fields, i as nat)) as u16;
            &&& (g.locals)(local) == values[i].0
            &&& is_pointer((#[trigger] fields[i]).1) ==> (g.locals)(local_plus(local, 1))
                == values[i].1 && (g.locals)(local_plus(local, 3)) == values[i].2
        }
}

/// Whether a name is that of a field of a class or of one of its offsets.
pub open spec fn is_named_by(field: (Text, TypeModel), name: Text) -> bool {
    name == field.0 || (is_pointer(field.1) && (name == element_offset_field(field.0) || name
        == byte_offset_field(field.0)))
}

/// Whether the names of fields and of the offsets of pointers differ.
pub open spec fn all_names_are_distinct(fields: Seq<(Text, TypeModel)>) -> bool {
    forall|i: int, j: int, name: Text|
        0 <= i < fields.len() && 0 <= j < fields.len() && #[trigger] is_named_by(fields[i], name)
            && #[trigger] is_named_by(fields[j], name) ==> i == j
}

/// Whether an object holds a value in a field, and in its offsets if it is a pointer.
pub open spec fn holds(
    contents: Contents,
    field: (Text, TypeModel),
    value: (int, int, int),
) -> bool {
    &&& contents(field.0) == value.0
    &&& is_pointer(field.1) ==> contents(element_offset_field(field.0)) == value.1 && contents(
        byte_offset_field(field.0),
    ) == value.2
}

/// The names of a pointer and of its offsets differ.
proof fn offsets_have_names(name: Text)
    ensures
        element_offset_field(name) != name,
        byte_offset_field(name) != name,
        element_offset_field(name) != byte_offset_field(name),
{
    reveal_strlit("$elementOffset");
    reveal_strlit("$byteOffset");
    assert(element_offset_field(name).len() == name.len() + 14);
    assert(byte_offset_field(name).len() == name.len() + 11);
}

/// Setting one field is three instructions.
proof fn one_put_sets_its_field(
    g: Given,
    class_name: Text,
    field_name: Text,
    field_ty: TypeModel,
    local: u16,
    ops: Seq<OpModel>,
    contents: Contents,
)
    requires
        run_of(g, ops, ops.len(), Seq::empty(), contents).0 == Seq::<int>::empty(),
    ensures
        ({
            let all = field_put(class_name, field_name, field_ty, local, ops);
            let set = run_of(g, ops, ops.len(), Seq::empty(), contents).1;
            &&& all.len() == ops.len() + 3
            &&& forall|i: int| 0 <= i < ops.len() ==> #[trigger] all[i] == ops[i]
            &&& run_of(g, all, all.len(), Seq::empty(), contents) == (
                Seq::<int>::empty(),
                with_content(set, field_name, (g.locals)(local)),
            )
        }),
{
    reveal(field_put);
    let none = Seq::<int>::empty();
    let all = field_put(class_name, field_name, field_ty, local, ops);
    let set = run_of(g, ops, ops.len(), none, contents).1;
    run_begins_alike(g, ops, all, ops.len(), none, contents);
    let m = ops.len();
    let s1 = none.push((g.locals)(0));
    let s2 = s1.push((g.locals)(local));
    assert(run_of(g, all, m, none, contents) == (none, set));
    assert(run_of(g, all, m + 1, none, contents) == (s1, set));
    assert(run_of(g, all, m + 2, none, contents) == (s2, set));
    assert(s2.take(0) =~= none);
    assert(run_of(g, all, m + 3, none, contents) == (
        none,
        with_content(set, field_name, (g.locals)(local)),
    ));
}

/// Setting the first fields with offsets sets each of them, and its offsets, to the arguments.
proof fn relative_puts_set_fields(
    g: Given,
    class_name: Text,
    fields: Seq<(Text, TypeModel)>,
    n: nat,
    ops: Seq<OpModel>,
    contents: Contents,
    values: Seq<(int, int, int)>,
)
    requires
        n <= fields.len(),
        all_names_are_distinct(fields),
        are_relative_arguments(g, fields, values),
        run_of(g, ops, ops.len(), Seq::empty(), contents).0 == Seq::<int>::empty(),
    ensures
        ({
            let all = relative_puts(class_name, fields, n, ops);
            let (stack, set) = run_of(g, all, all.len(), Seq::empty(), contents);
            &&& stack == Seq::<int>::empty()
            &&& forall|i: int| 0 <= i < n ==> holds(set, #[trigger] fields[i], values[i])
        }),
    decreases n,
{
    if n > 0 {
        let less = (n - 1) as nat;
        relative_puts_set_fields(g, class_name, fields, less, ops, contents, values);
        let before = relative_puts(class_name, fields, less, ops);
        let field = fields[n - 1];
        let local = (1 + relative_slots(fields, less)) as u16;
        let none = Seq::<int>::empty();
        let set = run_of(g, before, before.len(), none, contents).1;
        one_put_sets_its_field(g, class_name, field.0, field.1, local, before, contents);
        let one = field_put(class_name, field.0, field.1, local, before);
        offsets_have_names(field.0);
        let element = element_offset_field(field.0);
        let byte = byte_offset_field(field.0);
        let last = if is_pointer(field.1) {
            reveal(pointer_put);
            let at1 = local_plus(local, 1);
            let at3 = local_plus(local, 3);
            one_put_sets_its_field(g, class_name, element, Type::I64, at1, one, contents);
            let two = field_put(class_name, element, Type::I64, at1, one);
            one_put_sets_its_field(g, class_name, byte, Type::I64, at3, two, contents);
            with_content(
                with_content(
                    with_content(set, field.0, (g.locals)(local)),
                    element,
                    (g.locals)(at1),
                ),
                byte,
                (g.locals)(at3),
            )
        } else {
            with_content(set, field.0, (g.locals)(local))
        };
        assert(fields[n - 1] == field);
        assert(holds(last, field, values[n - 1]));
        assert forall|i: int| 0 <= i < n implies holds(last, #[trigger] fields[i], values[i]) by {
            if i < n - 1 {
                assert(holds(set, fields[i], values[i]));
                let f = fields[i];
                assert(is_named_by(f, f.0) && is_named_by(field, field.0));
                assert(!is_named_by(field, f.0));
                if is_pointer(f.1) {
                    assert(is_named_by(f, element_offset_field(f.0)));
                    assert(is_named_by(f, byte_offset_field(f.0)));
                    assert(!is_named_by(field, element_offset_field(f.0)));
                    assert(!is_named_by(field, byte_offset_field(f.0)));
                }
            }
        }
    }
}

/// The constructor with offsets sets each field to its argument, and the offsets of each pointer to
/// the two arguments behind it.
pub proof fn relative_constructor_sets_each_field(
    g: Given,
    this_class: Text,
    super_class: Text,
    fields: Seq<(Text, TypeModel)>,
    contents: Contents,
    values: Seq<(int, int, int)>,
    i: int,
)
    requires
        all_names_are_distinct(fields),
        are_relative_arguments(g, fields, values),
        0 <= i < fields.len(),
    ensures
        ({
            let ops = relative_constructor(this_class, super_class, fields).body->ops;
            let (stack, set) = run_of(g, ops, ops.len(), Seq::empty(), contents);
            &&& ops.last() == op_return(Kind::Nothing)
            &&& stack == Seq::<int>::empty()
            &&& holds(set, fields[i], values[i])
        }),
{
    let start = super_called(super_class, no_ops());
    super_call_is_neutral(g, super_class, contents);
    relative_puts_set_fields(g, this_class, fields, fields.len(), start, contents, values);
    let before = relative_puts(this_class, fields, fields.len(), start);
    return_is_neutral(g, before, contents);
    assert(holds(run_of(g, before, before.len(), Seq::empty(), contents).1, fields[i], values[i]));
}

} // verus!
