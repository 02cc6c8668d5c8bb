//! What the codecs of pointers say, and where pointers are told that nested values stand.
use crate::code::{
    CodeModel, DefinitionsModel, args4, byte_array, emit, empty_code, function_put, i32_value,
    makes_array, params0, params1, params2, plain_function, pointer_to, returns_nothing,
    returns_value, single_block, static_method, variable,
};
use crate::codec::codec_text;
use crate::coroutine_codec::coroutine_codec;
use crate::descriptor::is_reference;
use crate::execution::{decimal_is_digits, decimals_differ};
use crate::layout::{SlotModel, is_nested, slot_at};
use crate::oomir::{
    CodeBlockModel, ConstantModel, DataTypeMethodModel, InstructionModel, Operand, OperandModel,
    Text, Type, TypeModel, has_value,
};
use crate::pointer_codec::{
    array_methods, builtin_codec, codec_methods, fat_codec, memory_binding, memory_bindings,
    memory_codec, pointee_class, sized_codec, slice_codec, view_bindings, view_codec, whole_loaded,
    whole_stored,
};
use crate::rust_type::{
    Coroutine, Field, FloatKind, IntKind, RustType, TypeKind, UintKind, lowered, objects_size,
    size_of,
};
use crate::text::decimal_text;
use crate::transmute::memory_codec_text;
use crate::union_storage::{makes_objects, small_number, storage_at_start};
use vstd::prelude::*;
use vstd::string::*;

verus! {

/// Whether a text is one line.
pub open spec fn is_line(text: Text) -> bool {
    forall|i: int| 0 <= i < text.len() ==> #[trigger] text[i] != '\n'
}

/// The first line of a text and what is behind it are settled by the text.
proof fn lines_are_settled(a: Text, rest_a: Text, b: Text, rest_b: Text)
    requires
        is_line(a),
        is_line(b),
        a + "\n"@ + rest_a == b + "\n"@ + rest_b,
    ensures
        a == b,
        rest_a == rest_b,
{
    reveal_strlit("\n");
    let whole_a = a + "\n"@ + rest_a;
    let whole_b = b + "\n"@ + rest_b;
    assert(whole_a[a.len() as int] == '\n');
    assert(whole_b[b.len() as int] == '\n');
    if a.len() < b.len() {
        assert(whole_b[a.len() as int] == b[a.len() as int]);
    } else if b.len() < a.len() {
        assert(whole_a[b.len() as int] == a[b.len() as int]);
    }
    assert(a =~= whole_a.take(a.len() as int));
    assert(b =~= whole_b.take(b.len() as int));
    assert(rest_a =~= whole_a.skip((a.len() + 1) as int));
    assert(rest_b =~= whole_b.skip((b.len() + 1) as int));
}

proof fn decimal_is_a_line(n: nat)
    ensures
        is_line(decimal_text(n)),
{
    decimal_is_digits(n);
}

/// What stands behind a known start is settled by the text.
proof fn rest_is_settled(start: Text, rest_a: Text, rest_b: Text)
    requires
        start + rest_a == start + rest_b,
    ensures
        rest_a == rest_b,
{
    assert(rest_a =~= (start + rest_a).skip(start.len() as int));
    assert(rest_b =~= (start + rest_b).skip(start.len() as int));
}

/// Two lines behind a known start, and what is behind them, are settled by the text.
proof fn two_lines_are_settled(
    start: Text,
    first_a: Text,
    second_a: Text,
    rest_a: Text,
    first_b: Text,
    second_b: Text,
    rest_b: Text,
)
    requires
        is_line(first_a),
        is_line(first_b),
        is_line(second_a),
        is_line(second_b),
        (start + first_a + "\n"@ + second_a + "\n"@) + rest_a == (start + first_b + "\n"@ + second_b
            + "\n"@) + rest_b,
    ensures
        first_a == first_b,
        second_a == second_b,
        rest_a == rest_b,
{
    let behind_a = second_a + "\n"@ + rest_a;
    let behind_b = second_b + "\n"@ + rest_b;
    let text = (start + first_a + "\n"@ + second_a + "\n"@) + rest_a;
    assert(text =~= start + (first_a + "\n"@ + behind_a));
    assert(text =~= start + (first_b + "\n"@ + behind_b));
    rest_is_settled(start, first_a + "\n"@ + behind_a, first_b + "\n"@ + behind_b);
    lines_are_settled(first_a, behind_a, first_b, behind_b);
    lines_are_settled(second_a, rest_a, second_b, rest_b);
}

proof fn sized_codec_has_lines(ty: RustType, defs: DefinitionsModel)
    requires
        sized_codec(ty, defs).1 is Some,
    ensures
        size_of(ty) is Ok,
        sized_codec(ty, defs).1->0 == ((("@raw-pointer"@ + "\n"@) + decimal_text(
            size_of(ty)->Ok_0 as nat,
        ) + "\n"@ + pointee_class(ty) + "\n"@) + codec_text(view_codec(ty, defs).1)),
{
}

/// Two pointers to sized types have the same codec only if what they point to has the same size,
/// the same class and the same codec.
pub proof fn pointer_codecs_tell_what_they_point_to(
    a: RustType,
    b: RustType,
    defs_a: DefinitionsModel,
    defs_b: DefinitionsModel,
)
    requires
        sized_codec(a, defs_a).1 is Some,
        sized_codec(a, defs_a).1 == sized_codec(b, defs_b).1,
        is_line(pointee_class(a)),
        is_line(pointee_class(b)),
    ensures
        size_of(a) is Ok,
        size_of(a) == size_of(b),
        pointee_class(a) == pointee_class(b),
        codec_text(view_codec(a, defs_a).1) == codec_text(view_codec(b, defs_b).1),
{
    sized_codec_has_lines(a, defs_a);
    sized_codec_has_lines(b, defs_b);
    let size_a = size_of(a)->Ok_0 as nat;
    let size_b = size_of(b)->Ok_0 as nat;
    decimal_is_a_line(size_a);
    decimal_is_a_line(size_b);
    two_lines_are_settled(
        "@raw-pointer"@ + "\n"@,
        decimal_text(size_a),
        pointee_class(a),
        codec_text(view_codec(a, defs_a).1),
        decimal_text(size_b),
        pointee_class(b),
        codec_text(view_codec(b, defs_b).1),
    );
    decimals_differ(size_a, size_b);
}

/// Two pointers to slices have the same codec only if the elements have the same size and the same
/// codec.
pub proof fn slice_codecs_tell_their_elements(
    a: RustType,
    b: RustType,
    defs_a: DefinitionsModel,
    defs_b: DefinitionsModel,
)
    requires
        slice_codec(a, defs_a).1 is Some,
        slice_codec(a, defs_a).1 == slice_codec(b, defs_b).1,
    ensures
        size_of(a) is Ok,
        size_of(a) == size_of(b),
        codec_text(view_codec(a, defs_a).1) == codec_text(view_codec(b, defs_b).1),
{
    let size_a = decimal_text(size_of(a)->Ok_0 as nat);
    let size_b = decimal_text(size_of(b)->Ok_0 as nat);
    let codec_a = codec_text(view_codec(a, defs_a).1);
    let codec_b = codec_text(view_codec(b, defs_b).1);
    let start = "@slice-pointer\n"@ + "org/rustlang/runtime/SliceView"@ + "\n"@;
    let text = slice_codec(a, defs_a).1->0;
    assert(text =~= start + (size_a + "\n"@ + codec_a));
    assert(text =~= start + (size_b + "\n"@ + codec_b));
    rest_is_settled(start, size_a + "\n"@ + codec_a, size_b + "\n"@ + codec_b);
    decimal_is_a_line(size_of(a)->Ok_0 as nat);
    decimal_is_a_line(size_of(b)->Ok_0 as nat);
    lines_are_settled(size_a, codec_a, size_b, codec_b);
    decimals_differ(size_of(a)->Ok_0 as nat, size_of(b)->Ok_0 as nat);
}

/// Whether a type is a reference to an array of a known length whose elements have a known size.
pub open spec fn is_array_reference(ty: RustType) -> bool {
    &&& ty.kind matches TypeKind::Ref { pointee, .. }
    &&& pointee.kind matches TypeKind::Array { element, length }
    &&& length is Some
    &&& size_of(*element) is Ok
}

/// The elements of the array that a reference points to.
pub open spec fn element_of(ty: RustType) -> RustType {
    *(*ty.kind->Ref_pointee).kind->Array_element
}

/// The length of the array that a reference points to.
pub open spec fn length_of(ty: RustType) -> u64 {
    (*ty.kind->Ref_pointee).kind->Array_length->0
}

proof fn array_codec_has_lines(ty: RustType, defs: DefinitionsModel)
    requires
        is_array_reference(ty),
    ensures
        builtin_codec(ty, defs).1 == Some(
            ("@array-reference\n"@ + decimal_text(length_of(ty) as nat) + "\n"@ + decimal_text(
                size_of(element_of(ty))->Ok_0 as nat,
            ) + "\n"@) + codec_text(view_codec(element_of(ty), defs).1),
        ),
{
}

/// Two references to arrays have the same codec only if the arrays have the same length and
/// elements of the same size and the same codec.
pub proof fn array_codecs_tell_length_and_elements(
    a: RustType,
    b: RustType,
    defs_a: DefinitionsModel,
    defs_b: DefinitionsModel,
)
    requires
        is_array_reference(a),
        is_array_reference(b),
        builtin_codec(a, defs_a).1 == builtin_codec(b, defs_b).1,
    ensures
        builtin_codec(a, defs_a).1 is Some,
        length_of(a) == length_of(b),
        size_of(element_of(a)) == size_of(element_of(b)),
        codec_text(view_codec(element_of(a), defs_a).1) == codec_text(
            view_codec(element_of(b), defs_b).1,
        ),
{
    array_codec_has_lines(a, defs_a);
    array_codec_has_lines(b, defs_b);
    let size_a = size_of(element_of(a))->Ok_0 as nat;
    let size_b = size_of(element_of(b))->Ok_0 as nat;
    decimal_is_a_line(length_of(a) as nat);
    decimal_is_a_line(length_of(b) as nat);
    decimal_is_a_line(size_a);
    decimal_is_a_line(size_b);
    two_lines_are_settled(
        "@array-reference\n"@,
        decimal_text(length_of(a) as nat),
        decimal_text(size_a),
        codec_text(view_codec(element_of(a), defs_a).1),
        decimal_text(length_of(b) as nat),
        decimal_text(size_b),
        codec_text(view_codec(element_of(b), defs_b).1),
    );
    decimals_differ(length_of(a) as nat, length_of(b) as nat);
    decimals_differ(size_a, size_b);
}

/// Whether a text starts with another.
pub open spec fn starts_with(text: Text, start: Text) -> bool {
    start.len() <= text.len() && text.take(start.len() as int) == start
}

/// The first line of the codec of a fat pointer says what kind of pointer it is: one to a slice or
/// to text, one to a trait object, or one to a struct with an unsized end. Pointers to other types
/// are not fat.
pub proof fn fat_codecs_tell_their_kind(ty: RustType, defs: DefinitionsModel)
    ensures
        match (ty.kind, fat_codec(ty, defs).1) {
            (_, None) => true,
            (TypeKind::Ref { pointee, .. }, Some(text)) => match pointee.kind {
                TypeKind::Slice(_) | TypeKind::Str => starts_with(text, "@slice-pointer\n"@),
                TypeKind::Adt(_) => starts_with(text, "@struct-tail-pointer\n"@),
                _ => false,
            },
            (TypeKind::RawPtr { pointee, .. }, Some(text)) => match pointee.kind {
                TypeKind::Slice(_) | TypeKind::Str => starts_with(text, "@slice-pointer\n"@),
                TypeKind::Dynamic(_) => starts_with(text, "@trait-pointer\n"@),
                TypeKind::Adt(_) => starts_with(text, "@struct-tail-pointer\n"@),
                _ => false,
            },
            _ => false,
        },
{
    reveal_with_fuel(fat_codec, 2);
    if let Some(text) = fat_codec(ty, defs).1 {
        assert("@slice-pointer\n"@.len() <= text.len() ==> text.take(
            "@slice-pointer\n"@.len() as int,
        ).len() == "@slice-pointer\n"@.len());
        match ty.kind {
            TypeKind::Ref { pointee, .. } | TypeKind::RawPtr { pointee, .. } => match pointee.kind {
                TypeKind::Slice(_) | TypeKind::Str => {
                    assert(text.take("@slice-pointer\n"@.len() as int) =~= "@slice-pointer\n"@);
                },
                TypeKind::Dynamic(_) => {
                    assert(text.take("@trait-pointer\n"@.len() as int) =~= "@trait-pointer\n"@);
                },
                _ => {
                    assert(text.take("@struct-tail-pointer\n"@.len() as int)
                        =~= "@struct-tail-pointer\n"@);
                },
            },
            _ => {},
        }
    }
}

/// The 128-bit numbers have codecs of their own, no two of them the same.
pub proof fn wide_numbers_have_their_own_codecs(
    a: RustType,
    b: RustType,
    c: RustType,
    defs: DefinitionsModel,
)
    requires
        a.kind == TypeKind::Int(IntKind::I128),
        b.kind == TypeKind::Uint(UintKind::U128),
        c.kind == TypeKind::Float(FloatKind::F128),
    ensures
        builtin_codec(a, defs) == (defs, Some("@signed-big-integer"@)),
        builtin_codec(b, defs) == (defs, Some("@unsigned-big-integer"@)),
        builtin_codec(c, defs) == (defs, Some("@f128"@)),
        builtin_codec(a, defs).1 != builtin_codec(b, defs).1,
        builtin_codec(a, defs).1 != builtin_codec(c, defs).1,
        builtin_codec(b, defs).1 != builtin_codec(c, defs).1,
{
    reveal_with_fuel(builtin_codec, 2);
    reveal_strlit("@signed-big-integer");
    reveal_strlit("@unsigned-big-integer");
    reveal_strlit("@f128");
    assert("@signed-big-integer"@.len() == 19);
    assert("@unsigned-big-integer"@.len() == 21);
    assert("@f128"@.len() == 5);
}

/// Whether a pointer has to be told where a part of a value stands: the part holds other values and
/// is an object.
pub open spec fn is_bound(fields: Seq<Field>, slots: Seq<Option<SlotModel>>, i: int) -> bool {
    &&& slot_at(slots, i as usize) matches Some(slot)
    &&& is_nested(fields[i].ty)
    &&& is_reference(slot.ty)
}

/// The positions from one on of the parts that a pointer has to be told of.
pub open spec fn bound_from(
    fields: Seq<Field>,
    slots: Seq<Option<SlotModel>>,
    from: nat,
) -> Seq<int> {
    Seq::new((fields.len() - from) as nat, |k: int| from + k).filter(
        |i: int| is_bound(fields, slots, i),
    )
}

/// Whether two instructions read a part of a value and tell a pointer that exactly this part stands
/// at its offset, with its size.
pub open spec fn binds_part(
    read: InstructionModel,
    tell: InstructionModel,
    field: Field,
    slot: SlotModel,
    class: Text,
    pointer: OperandModel,
    source: OperandModel,
) -> bool {
    &&& read matches InstructionModel::GetField {
        dest,
        object,
        field_name,
        field_ty,
        owner_class,
    }
    &&& object == source
    &&& field_name == slot.name
    &&& field_ty == slot.ty
    &&& owner_class == class
    &&& tell matches InstructionModel::InvokeVirtual {
        dest: None,
        class_name,
        method_name,
        method_ty,
        args,
        operand,
    }
    &&& class_name == "org/rustlang/runtime/Pointer"@
    &&& method_name == "bindNestedMemoryView"@
    &&& !method_ty.is_static
    &&& operand == pointer
    &&& args.len() == 4
    &&& args[0] == (Operand::Variable { name: dest, ty: slot.ty })
    &&& args[1] == Operand::Constant(ConstantModel::U64(field.offset as u64))
    &&& size_of(field.ty) matches Ok(size)
    &&& args[2] == Operand::Constant(ConstantModel::U64(size as u64))
}

proof fn next_bound(fields: Seq<Field>, slots: Seq<Option<SlotModel>>, from: nat)
    requires
        from < fields.len(),
    ensures
        bound_from(fields, slots, from) == (if is_bound(fields, slots, from as int) {
            seq![from as int] + bound_from(fields, slots, from + 1)
        } else {
            bound_from(fields, slots, from + 1)
        }),
{
    reveal_with_fuel(Seq::filter, 3);
    let pred = |i: int| is_bound(fields, slots, i);
    let all = Seq::new((fields.len() - from) as nat, |k: int| from + k);
    let rest = Seq::new((fields.len() - (from + 1)) as nat, |k: int| (from + 1) as nat + k);
    let one = seq![from as int];
    assert(all =~= one + rest);
    Seq::filter_distributes_over_add(one, rest, pred);
    assert(one.drop_last() =~= Seq::<int>::empty());
    assert(one.filter(pred) =~= if pred(from as int) {
        one
    } else {
        Seq::empty()
    });
    assert(Seq::<int>::empty() + rest.filter(pred) =~= rest.filter(pred));
}

/// Whether the instructions from a position on are pairs, one for each of the given parts in order.
pub open spec fn binds_parts(
    list: Seq<InstructionModel>,
    at: int,
    parts: Seq<int>,
    fields: Seq<Field>,
    slots: Seq<Option<SlotModel>>,
    class: Text,
    pointer: OperandModel,
    source: OperandModel,
) -> bool {
    &&& list.len() == at + 2 * parts.len()
    &&& forall|k: int|
        #![trigger parts[k]]
        0 <= k < parts.len() ==> binds_part(
            list[at + 2 * k],
            list[at + 2 * k + 1],
            fields[parts[k]],
            slot_at(slots, parts[k] as usize)->0,
            class,
            pointer,
            source,
        )
}

proof fn pairs_are_joined(
    before: Seq<InstructionModel>,
    first: Seq<InstructionModel>,
    after: Seq<InstructionModel>,
    from: int,
    rest: Seq<int>,
    fields: Seq<Field>,
    slots: Seq<Option<SlotModel>>,
    class: Text,
    pointer: OperandModel,
    source: OperandModel,
)
    requires
        first.len() == before.len() + 2,
        first.take(before.len() as int) == before,
        binds_part(
            first[before.len() as int],
            first[before.len() as int + 1],
            fields[from],
            slot_at(slots, from as usize)->0,
            class,
            pointer,
            source,
        ),
        first.len() <= after.len(),
        after.take(first.len() as int) == first,
        binds_parts(
            after,
            first.len() as int,
            rest,
            fields,
            slots,
            class,
            pointer,
            source,
        ),
    ensures
        after.take(before.len() as int) == before,
        binds_parts(
            after,
            before.len() as int,
            seq![from] + rest,
            fields,
            slots,
            class,
            pointer,
            source,
        ),
{
    let n = before.len() as int;
    let parts = seq![from] + rest;
    assert(after.take(n) =~= after.take(n + 2).take(n));
    assert(after[n] == after.take(n + 2)[n]);
    assert(after[n + 1] == after.take(n + 2)[n + 1]);
    assert forall|k: int|
        #![trigger parts[k]]
        0 <= k < parts.len() implies binds_part(
        after[n + 2 * k],
        after[n + 2 * k + 1],
        fields[parts[k]],
        slot_at(slots, parts[k] as usize)->0,
        class,
        pointer,
        source,
    ) by {
        if k > 0 {
            assert(parts[k] == rest[k - 1]);
        }
    }
}

proof fn part_is_bound(
    field: Field,
    slot: SlotModel,
    class: Text,
    pointer: OperandModel,
    source: OperandModel,
    code: CodeModel,
    defs: DefinitionsModel,
)
    requires
        memory_binding(field.ty, slot, field.offset, class, pointer, source, code, defs).2 is Ok,
    ensures
        ({
            let after = memory_binding(
                field.ty,
                slot,
                field.offset,
                class,
                pointer,
                source,
                code,
                defs,
            ).0.instructions;
            let n = code.instructions.len() as int;
            &&& after.len() == n + 2
            &&& after.take(n) == code.instructions
            &&& binds_part(after[n], after[n + 1], field, slot, class, pointer, source)
        }),
{
    reveal(args4);
    let after = memory_binding(
        field.ty,
        slot,
        field.offset,
        class,
        pointer,
        source,
        code,
        defs,
    ).0.instructions;
    assert(after.take(code.instructions.len() as int) =~= code.instructions);
}

/// What is done for one part, before the parts behind it.
spec fn after_one(
    fields: Seq<Field>,
    slots: Seq<Option<SlotModel>>,
    class: Text,
    pointer: OperandModel,
    source: OperandModel,
    from: nat,
    code: CodeModel,
    defs: DefinitionsModel,
) -> (CodeModel, DefinitionsModel, Result<(), Text>) {
    if is_bound(fields, slots, from as int) {
        memory_binding(
            fields[from as int].ty,
            slot_at(slots, from as usize)->0,
            fields[from as int].offset,
            class,
            pointer,
            source,
            code,
            defs,
        )
    } else {
        (code, defs, Ok(()))
    }
}

proof fn one_part_first(
    fields: Seq<Field>,
    slots: Seq<Option<SlotModel>>,
    class: Text,
    pointer: OperandModel,
    source: OperandModel,
    from: nat,
    code: CodeModel,
    defs: DefinitionsModel,
)
    requires
        from < fields.len() <= usize::MAX,
        memory_bindings(fields, slots, class, pointer, source, from, code, defs).2 is Ok,
    ensures
        ({
            let (code1, defs1, outcome) = after_one(
                fields,
                slots,
                class,
                pointer,
                source,
                from,
                code,
                defs,
            );
            &&& outcome is Ok
            &&& memory_bindings(fields, slots, class, pointer, source, from, code, defs)
                == memory_bindings(fields, slots, class, pointer, source, from + 1, code1, defs1)
        }),
{
}

proof fn bindings_from(
    fields: Seq<Field>,
    slots: Seq<Option<SlotModel>>,
    class: Text,
    pointer: OperandModel,
    source: OperandModel,
    from: nat,
    code: CodeModel,
    defs: DefinitionsModel,
)
    requires
        from <= fields.len() <= usize::MAX,
        memory_bindings(fields, slots, class, pointer, source, from, code, defs).2 is Ok,
    ensures
        ({
            let after = memory_bindings(
                fields,
                slots,
                class,
                pointer,
                source,
                from,
                code,
                defs,
            ).0.instructions;
            let n = code.instructions.len() as int;
            &&& n <= after.len()
            &&& after.take(n) == code.instructions
            &&& binds_parts(
                after,
                n,
                bound_from(fields, slots, from),
                fields,
                slots,
                class,
                pointer,
                source,
            )
        }),
    decreases fields.len() - from,
{
    let n = code.instructions.len() as int;
    let (end, _, _) = memory_bindings(fields, slots, class, pointer, source, from, code, defs);
    let after = end.instructions;
    if from >= fields.len() {
        reveal(Seq::filter);
        assert(Seq::new((fields.len() - from) as nat, |k: int| from + k) =~= Seq::<int>::empty());
        assert(bound_from(fields, slots, from) =~= Seq::<int>::empty());
        assert(after.take(n) =~= code.instructions);
    } else {
        next_bound(fields, slots, from);
        one_part_first(fields, slots, class, pointer, source, from, code, defs);
        let (code1, defs1, _) = after_one(
            fields,
            slots,
            class,
            pointer,
            source,
            from,
            code,
            defs,
        );
        bindings_from(fields, slots, class, pointer, source, from + 1, code1, defs1);
        if is_bound(fields, slots, from as int) {
            let slot = slot_at(slots, from as usize)->0;
            let item = fields[from as int];
            part_is_bound(item, slot, class, pointer, source, code, defs);
            pairs_are_joined(
                code.instructions,
                code1.instructions,
                after,
                from as int,
                bound_from(fields, slots, from + 1),
                fields,
                slots,
                class,
                pointer,
                source,
            );
        }
    }
}

/// A pointer to a value is told of each part that holds other values, in order: of the part that is
/// read from the field, with the offset and the size of the part.
pub proof fn pointers_are_told_of_each_nested_part(
    fields: Seq<Field>,
    slots: Seq<Option<SlotModel>>,
    class: Text,
    pointer: OperandModel,
    source: OperandModel,
    code: CodeModel,
    defs: DefinitionsModel,
)
    requires
        fields.len() <= usize::MAX,
        memory_bindings(fields, slots, class, pointer, source, 0, code, defs).2 is Ok,
    ensures
        ({
            let after = memory_bindings(
                fields,
                slots,
                class,
                pointer,
                source,
                0,
                code,
                defs,
            ).0.instructions;
            let n = code.instructions.len() as int;
            &&& after.take(n) == code.instructions
            &&& binds_parts(
                after,
                n,
                bound_from(fields, slots, 0),
                fields,
                slots,
                class,
                pointer,
                source,
            )
        }),
{
    bindings_from(fields, slots, class, pointer, source, 0, code, defs);
}

/// Whether a method is a function of one block that returns a constant.
pub open spec fn returns_constant(method: DataTypeMethodModel, constant: ConstantModel) -> bool {
    &&& method matches DataTypeMethodModel::Function(function)
    &&& function.signature.is_static
    &&& function.signature.params.len() == 0
    &&& function.body.basic_blocks.dom().contains(function.body.entry)
    &&& function.body.basic_blocks[function.body.entry].instructions == seq![
        InstructionModel::Return { operand: Some(Operand::Constant(constant)) },
    ]
}

/// The codec of an array tells the size of its elements and their codec.
pub proof fn array_codecs_tell_their_elements(
    ty: RustType,
    element: RustType,
    defs: DefinitionsModel,
    methods: Map<Text, DataTypeMethodModel>,
)
    requires
        ty.kind matches TypeKind::Array { element: found, .. } && *found == element,
        size_of(element) is Ok,
        size_of(element)->Ok_0 <= i32::MAX,
    ensures
        ({
            let (_, after, outcome) = array_methods(ty, defs, methods);
            &&& outcome == Ok::<(), Text>(())
            &&& after.dom() == methods.dom().insert("_rustArrayElementSize"@).insert(
                "_rustArrayElementCodec"@,
            )
            &&& returns_constant(
                after["_rustArrayElementSize"@],
                ConstantModel::I32(size_of(element)->Ok_0 as i32),
            )
            &&& returns_constant(
                after["_rustArrayElementCodec"@],
                match view_codec(element, defs).1 {
                    Some(text) => ConstantModel::String(text),
                    None => ConstantModel::Null(Type::Class("java/lang/String"@)),
                },
            )
        }),
{
    reveal_with_fuel(array_methods, 2);
    reveal(params0);
    reveal_strlit("_rustArrayElementSize");
    reveal_strlit("_rustArrayElementCodec");
    assert("_rustArrayElementSize"@.len() == 21);
    assert("_rustArrayElementCodec"@.len() == 22);
    let (_, after, outcome) = array_methods(ty, defs, methods);
    assert(after.dom() =~= methods.dom().insert("_rustArrayElementSize"@).insert(
        "_rustArrayElementCodec"@,
    ));
    let size_list = after["_rustArrayElementSize"@]->Function_0.body.basic_blocks["bb0"@].instructions;
    assert(size_list =~= seq![
        InstructionModel::Return {
            operand: Some(
                Operand::Constant(ConstantModel::I32(size_of(element)->Ok_0 as i32)),
            ),
        },
    ]);
    let codec_list = after["_rustArrayElementCodec"@]->Function_0.body.basic_blocks["bb0"@].instructions;
    assert(codec_list =~= seq![codec_list[0]]);
}

/// The codec of values in pointer memory is that through which pointers look at them, but for the
/// one of objects that the runtime keeps, which have none in memory; both need the same
/// definitions.
pub proof fn memory_is_coded_as_it_is_seen(ty: RustType, defs: DefinitionsModel)
    ensures
        ({
            let (seen_defs, seen) = view_codec(ty, defs);
            let (memory_defs, memory) = memory_codec_text(ty, defs);
            &&& memory_defs == seen_defs
            &&& {
                ||| seen matches Some(text) && memory == Operand::Constant(
                    ConstantModel::String(text),
                )
                ||| memory == Operand::Constant(
                    ConstantModel::Null(Type::Class("java/lang/String"@)),
                ) && (seen is None || seen == Some("@managed-object"@))
            }
        }),
{
    reveal(memory_codec_text);
}

/// Whether methods have a static function under a name that takes and gives values of some types.
pub open spec fn has_static(
    methods: Map<Text, DataTypeMethodModel>,
    name: Text,
    taken: Seq<TypeModel>,
    given: TypeModel,
) -> bool {
    &&& methods.dom().contains(name)
    &&& methods[name] matches DataTypeMethodModel::Function(function)
    &&& function.name == name
    &&& function.signature.is_static
    &&& function.signature.params.len() == taken.len()
    &&& forall|i: int|
        0 <= i < taken.len() ==> (#[trigger] function.signature.params[i]).1 == taken[i]
    &&& function.signature.ret == given
}

proof fn last_methods_are_there(
    value_ty: TypeModel,
    decode: CodeBlockModel,
    bind: CodeBlockModel,
    before: Map<Text, DataTypeMethodModel>,
)
    ensures
        ({
            let bytes = Type::Array(Box::new(Type::I8));
            let after = function_put(
                "bind"@,
                plain_function(
                    "bind"@,
                    static_method(
                        params2("pointer"@, pointer_to(value_ty), "value"@, value_ty),
                        Type::Void,
                    ),
                    bind,
                ),
                function_put(
                    "decode"@,
                    plain_function(
                        "decode"@,
                        static_method(params1("bytes"@, byte_array()), value_ty),
                        decode,
                    ),
                    before,
                ),
            );
            &&& has_static(after, "decode"@, seq![bytes], value_ty)
            &&& has_static(
                after,
                "bind"@,
                seq![Type::Pointer(Box::new(value_ty)), value_ty],
                Type::Void,
            )
            &&& after["bind"@]->Function_0.body == bind
        }),
{
    reveal(params1);
    reveal(params2);
    reveal_strlit("decode");
    reveal_strlit("bind");
    assert("decode"@[0] == 'd' && "bind"@[0] == 'b');
}

/// A codec has a method that makes a value of bytes, and one that tells a pointer to a value of the
/// parts of this value and returns nothing.
pub proof fn codecs_tell_pointers_of_their_values(
    ty: RustType,
    size: usize,
    defs: DefinitionsModel,
    methods: Map<Text, DataTypeMethodModel>,
) -> (ready: DefinitionsModel)
    requires
        codec_methods(ty, size, defs, methods).2 is Ok,
    ensures
        ({
            let after = codec_methods(ty, size, defs, methods).1;
            let pointer_ty = Type::Pointer(Box::new(lowered(ty)));
            let told = view_bindings(
                ty,
                Operand::Variable { name: "_1"@, ty: pointer_ty },
                Operand::Variable { name: "_2"@, ty: lowered(ty) },
                empty_code(0),
                ready,
            ).0.instructions;
            let bind = after["bind"@]->Function_0.body;
            &&& has_static(
                after,
                "decode"@,
                seq![Type::Array(Box::new(Type::I8))],
                lowered(ty),
            )
            &&& has_static(after, "bind"@, seq![pointer_ty, lowered(ty)], Type::Void)
            &&& bind.basic_blocks[bind.entry].instructions == told.push(
                InstructionModel::Return { operand: None },
            )
        }),
{
    let objects = objects_size(ty, size);
    let value_ty = lowered(ty);
    let storing = emit(
        emit(empty_code(0), makes_array("_bytes"@, Type::I8, i32_value(small_number(size)))),
        makes_objects("_objects"@, objects),
    );
    let (stored, defs1, methods1, _) = whole_stored(
        ty,
        variable("_1"@, value_ty),
        storage_at_start("_bytes"@, "_objects"@),
        ty.codec_class@,
        storing,
        defs,
        methods,
    );
    let encode = emit(stored, returns_value(variable("_bytes"@, byte_array()))).instructions;
    let methods2 = function_put(
        "encode"@,
        plain_function(
            "encode"@,
            static_method(params1("value"@, value_ty), byte_array()),
            single_block(encode),
        ),
        methods1,
    );
    let (loaded, ready, methods3, outcome) = whole_loaded(
        ty,
        storage_at_start("_1"@, "_objects"@),
        ty.codec_class@,
        emit(empty_code(0), makes_objects("_objects"@, objects)),
        defs1,
        methods2,
    );
    let decode = emit(loaded, returns_value(outcome->Ok_0)).instructions;
    let told = view_bindings(
        ty,
        variable("_1"@, pointer_to(value_ty)),
        variable("_2"@, value_ty),
        empty_code(0),
        ready,
    ).0;
    let bind = emit(told, returns_nothing()).instructions;
    last_methods_are_there(value_ty, single_block(decode), single_block(bind), methods3);
    ready
}

/// Whether values of a type can be coded as parts: the type is made of others or has a class.
pub open spec fn is_coded(ty: RustType) -> bool {
    ty.kind is Tuple || ty.kind is Array || ty.kind is Adt || ty.kind is Closure || ty.kind
        is Coroutine || ty.kind is FnDef
}

/// Values are coded by the class that their type has for this; numbers, text, pointers and what has
/// no JVM value have none and need nothing.
pub proof fn values_are_coded_by_the_class_of_their_type(ty: RustType, defs: DefinitionsModel)
    ensures
        !is_coded(ty) ==> memory_codec(ty, defs) == (defs, Ok::<Option<Text>, Text>(None)),
        memory_codec(ty, defs).1 matches Ok(Some(name)) ==> name == ty.codec_class@ && is_coded(ty),
        is_coded(ty) && !(ty.kind is Coroutine) && memory_codec(ty, defs).1 is Ok ==> (
        memory_codec(ty, defs).1->Ok_0 is Some <==> has_value(lowered(ty))),
{
    match ty.kind {
        TypeKind::Coroutine(coroutine) => {
            coroutine_codecs_are_their_class(ty, coroutine, defs);
        },
        _ => {},
    }
}

proof fn coroutine_codecs_are_their_class(
    ty: RustType,
    coroutine: Coroutine,
    defs: DefinitionsModel,
)
    ensures
        coroutine_codec(ty, coroutine, defs).1 matches Ok(name) ==> name == ty.codec_class@,
{
}

} // verus!
