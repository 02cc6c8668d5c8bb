//! What the actions that drop a value do.
use crate::code::{args0, args1, params1, typed0};
use crate::descriptor::class_name_of;
use crate::drop_glue::{
    boxed_drop, boxed_type, carries_pointer, destructor_action, destructor_drop, drop_actions,
    drop_glue, enum_fields_drop, field_drops, no_actions, owned_drop, part_drop, runtime_drop,
    safe_drop_body, slot_drop, struct_drop_fields, value_drop, variant_drop_fields,
    variant_field_drops, whole_drop,
};
use crate::layout::{SlotNames, slots_of_variant, valued_before};
use crate::oomir::{InstructionModel, Operand, OperandModel, Text, Type, TypeModel, has_value};
use crate::rust_type::{Adt, Field, RustType, TypeKind, ZeroSized, lowered};
use crate::text::decimal_text;
use vstd::prelude::*;
use vstd::string::*;

verus! {

/// Whether an instruction hands an operand to the runtime to be dropped.
pub open spec fn drops_value(instruction: InstructionModel, operand: OperandModel) -> bool {
    &&& instruction matches InstructionModel::InvokeStatic {
        dest,
        class_name,
        method_name,
        method_ty,
        args,
    }
    &&& dest is None
    &&& class_name == "org/rustlang/runtime/Pointer"@
    &&& method_name == "dropRustValue"@
    &&& method_ty.is_static
    &&& method_ty.ret is Void
    &&& method_ty.params.len() == 1
    &&& args == seq![operand]
}

/// Whether an action reads a field of an object and hands exactly what it read to the runtime to be
/// dropped.
pub open spec fn reads_and_drops(
    action: Seq<InstructionModel>,
    object: OperandModel,
    owner: Text,
    name: Text,
    ty: TypeModel,
) -> bool {
    &&& action.len() == 2
    &&& action[0] matches InstructionModel::GetField {
        dest,
        object: read,
        field_name,
        field_ty,
        owner_class,
    }
    &&& read == object
    &&& field_name == name
    &&& field_ty == ty
    &&& owner_class == owner
    &&& drops_value(action[1], Operand::Variable { name: dest, ty })
}

/// Whether an action drops a part of a value: what is read from its field, or a new object of its
/// class where values of its type have no JVM representation of their own.
pub open spec fn drops_part(
    action: Seq<InstructionModel>,
    ty: RustType,
    object: OperandModel,
    owner: Text,
    name: Text,
) -> bool {
    if has_value(lowered(ty)) {
        reads_and_drops(action, object, owner, name, lowered(ty))
    } else {
        match ty.zero_sized {
            ZeroSized::Instance { class_name } => makes_and_drops(action, class_name@),
            _ => action.len() == 0,
        }
    }
}

/// Whether an action makes an object of a class and hands it to the runtime to be dropped.
pub open spec fn makes_and_drops(action: Seq<InstructionModel>, class: Text) -> bool {
    &&& action.len() == 2
    &&& action[0] matches InstructionModel::ConstructObject { dest, class_name, args }
    &&& class_name == class
    &&& args.len() == 0
    &&& drops_value(action[1], Operand::Variable { name: dest, ty: Type::Class(class) })
}

/// The positions from one on of the fields that have to be dropped.
pub open spec fn dropped_from(fields: Seq<Field>, from: nat) -> Seq<int> {
    Seq::new((fields.len() - from) as nat, |k: int| from + k).filter(
        |i: int| fields[i].ty.needs_drop,
    )
}

/// The positions of the fields that have to be dropped.
pub open spec fn dropped(fields: Seq<Field>) -> Seq<int> {
    dropped_from(fields, 0)
}

/// The name of a part of a struct, a tuple or a closure in its class.
pub open spec fn part_name(ty: RustType, fields: Seq<Field>, i: int) -> Text {
    match ty.kind {
        TypeKind::Tuple { .. } => "field"@ + decimal_text(i as nat),
        TypeKind::Closure { .. } => "arg"@ + decimal_text(i as nat),
        _ => fields[i].name@,
    }
}

proof fn next_dropped(fields: Seq<Field>, from: nat)
    requires
        from < fields.len(),
    ensures
        dropped_from(fields, from) == (if fields[from as int].ty.needs_drop {
            seq![from as int] + dropped_from(fields, from + 1)
        } else {
            dropped_from(fields, from + 1)
        }),
{
    reveal_with_fuel(Seq::filter, 3);
    let pred = |i: int| fields[i].ty.needs_drop;
    let all = Seq::new((fields.len() - from) as nat, |k: int| from + k);
    let rest = Seq::new((fields.len() - (from + 1)) as nat, |k: int| (from + 1) as nat + k);
    let one = seq![from as int];
    assert(all =~= one + rest);
    Seq::filter_distributes_over_add(one, rest, pred);
    assert(one.drop_last() =~= Seq::<int>::empty());
    assert(one.filter(pred) =~= if pred(from as int) {
        one
    } else {
        Seq::empty()
    });
    assert(Seq::<int>::empty() + rest.filter(pred) =~= rest.filter(pred));
}

proof fn part_is_dropped(
    ty: RustType,
    value: OperandModel,
    name: Text,
    owner: Text,
    temp: Text,
    lists: Seq<Seq<InstructionModel>>,
) -> (action: Seq<InstructionModel>)
    ensures
        part_drop(ty, value, name, owner, temp, lists) == lists.push(action),
        drops_part(action, ty, value, owner, name),
{
    reveal(part_drop);
    reveal(value_drop);
    reveal(runtime_drop);
    reveal(args1);
    reveal(params1);
    reveal(typed0);
    part_drop(ty, value, name, owner, temp, lists).last()
}

spec fn drops_field(
    action: Seq<InstructionModel>,
    fields: Seq<Field>,
    names: SlotNames,
    value: OperandModel,
    owner: Text,
    i: int,
) -> bool {
    0 <= i < fields.len() && drops_part(
        action,
        fields[i].ty,
        value,
        owner,
        crate::layout::slot_name(names, i as nat, fields[i]),
    )
}

proof fn fields_are_dropped(
    fields: Seq<Field>,
    names: SlotNames,
    value: OperandModel,
    owner: Text,
    temp_prefix: Text,
    from: nat,
    lists: Seq<Seq<InstructionModel>>,
) -> (done: Seq<Seq<InstructionModel>>)
    requires
        from <= fields.len() <= usize::MAX,
    ensures
        field_drops(fields, names, value, owner, temp_prefix, from, lists) == lists + done,
        done.len() == dropped_from(fields, from).len(),
        forall|k: int|
            0 <= k < done.len() ==> drops_field(
                #[trigger] done[k],
                fields,
                names,
                value,
                owner,
                dropped_from(fields, from)[k],
            ),
    decreases fields.len() - from,
{
    if from == fields.len() {
        reveal(Seq::filter);
        let done = Seq::<Seq<InstructionModel>>::empty();
        assert(lists + done =~= lists);
        done
    } else {
        next_dropped(fields, from);
        let item = fields[from as int];
        if item.ty.needs_drop {
            let name = crate::layout::slot_name(names, from, item);
            let temp = temp_prefix + decimal_text(from);
            let action = part_is_dropped(item.ty, value, name, owner, temp, lists);
            let more = lists.push(action);
            let rest = fields_are_dropped(
                fields,
                names,
                value,
                owner,
                temp_prefix,
                from + 1,
                more,
            );
            let done = seq![action] + rest;
            assert(more + rest =~= lists + done);
            assert forall|k: int| 0 <= k < done.len() implies drops_field(
                #[trigger] done[k],
                fields,
                names,
                value,
                owner,
                dropped_from(fields, from)[k],
            ) by {
                if k > 0 {
                    assert(done[k] == rest[k - 1]);
                    assert(dropped_from(fields, from)[k] == dropped_from(fields, from + 1)[k - 1]);
                }
            }
            done
        } else {
            fields_are_dropped(fields, names, value, owner, temp_prefix, from + 1, lists)
        }
    }
}

/// Whether actions drop the parts of a value that have to be dropped, one each and in their order.
pub open spec fn drop_the_parts(
    done: Seq<Seq<InstructionModel>>,
    ty: RustType,
    fields: Seq<Field>,
    value: OperandModel,
    owner: Text,
) -> bool {
    &&& done.len() == dropped(fields).len()
    &&& forall|k: int|
        0 <= k < done.len() ==> drops_part(
            #[trigger] done[k],
            fields[dropped(fields)[k]].ty,
            value,
            owner,
            part_name(ty, fields, dropped(fields)[k]),
        )
}

/// Whether an action calls the destructor of a class on a value.
pub open spec fn destroys(action: Seq<InstructionModel>, class: Text, value: OperandModel) -> bool {
    &&& action.len() == 1
    &&& action[0] matches InstructionModel::InvokeStatic {
        dest,
        class_name,
        method_name,
        method_ty,
        args,
    }
    &&& dest is None
    &&& class_name == class
    &&& method_name == "drop"@
    &&& method_ty.is_static
    &&& method_ty.ret is Void
    &&& method_ty.params == seq![("self"@, Type::<Text>::Class(class))]
    &&& args == seq![value]
}

/// Dropping a tuple or a closure drops each part that has to be dropped, in their order, and
/// nothing else.
pub proof fn tuples_and_closures_drop_their_parts(
    ty: RustType,
    fields: Seq<Field>,
    owner: Text,
    value: OperandModel,
    slice_drop: Seq<InstructionModel>,
    temp_prefix: Text,
)
    requires
        (match ty.kind {
            TypeKind::Tuple { elements, .. } => elements@ == fields,
            TypeKind::Closure { captures, .. } => captures@ == fields,
            _ => false,
        }),
        fields.len() <= usize::MAX,
        lowered(ty) == Type::<Text>::Class(owner),
    ensures
        drop_the_parts(
            drop_actions(ty, value, slice_drop, temp_prefix, no_actions()),
            ty,
            fields,
            value,
            owner,
        ),
{
    reveal(drop_actions);
    let (names, prefix) = match ty.kind {
        TypeKind::Tuple { .. } => (SlotNames::Elements, temp_prefix + "_tuple_"@),
        _ => (SlotNames::Captures, temp_prefix + "_capture_"@),
    };
    let done = fields_are_dropped(fields, names, value, owner, prefix, 0, no_actions());
    assert(no_actions() + done =~= done);
}

/// Dropping a struct runs its destructor, if it has one, and then drops each field that has to be
/// dropped, in their order. What a box holds is dropped before both.
pub proof fn structs_drop_their_fields(
    ty: RustType,
    adt: Adt,
    owner: Text,
    value: OperandModel,
    slice_drop: Seq<InstructionModel>,
    temp_prefix: Text,
) -> (done: Seq<Seq<InstructionModel>>)
    requires
        ty.kind == TypeKind::Adt(adt),
        adt.shape is Struct,
        adt.variants@.len() > 0,
        adt.variants@[0].fields@.len() <= usize::MAX,
        lowered(ty) == Type::<Text>::Class(owner),
    ensures
        drop_the_parts(done, ty, adt.variants@[0].fields@, value, owner),
        ({
            let actions = drop_actions(ty, value, slice_drop, temp_prefix, no_actions());
            let boxed: nat = if adt.role is OwnedBox && boxed_type(adt) is Some && boxed_type(
                adt,
            )->0.needs_drop {
                1
            } else {
                0
            };
            let first: nat = boxed + if adt.has_destructor {
                1nat
            } else {
                0nat
            };
            &&& actions.len() == first + done.len()
            &&& actions.skip(first as int) == done
            &&& adt.has_destructor ==> destroys(actions[boxed as int], owner, value)
        }),
{
    reveal(drop_actions);
    reveal(owned_drop);
    reveal(boxed_drop);
    reveal(destructor_action);
    reveal(destructor_drop);
    reveal(args1);
    reveal(params1);
    let fields = adt.variants@[0].fields@;
    let front = owned_drop(ty, adt, value, slice_drop, temp_prefix, no_actions());
    let more = destructor_action(ty, adt, value, front);
    let done = fields_are_dropped(
        fields,
        SlotNames::Declared,
        value,
        owner,
        temp_prefix + "_field_"@,
        0,
        more,
    );
    let actions = drop_actions(ty, value, slice_drop, temp_prefix, no_actions());
    assert(actions.skip(more.len() as int) =~= done);
    done
}

/// Whether instructions read through the first fields of three classes, one behind the other, so
/// that each reads from what the one before read.
pub open spec fn reads_through(
    list: Seq<InstructionModel>,
    ty: RustType,
    value: OperandModel,
    depth: nat,
) -> bool
    decreases depth,
{
    depth == 0 || {
        &&& list.len() >= depth
        &&& ty.kind matches TypeKind::Adt(adt)
        &&& list[0] matches InstructionModel::GetField {
            dest,
            object,
            field_name,
            field_ty,
            owner_class,
        }
        &&& object == value
        &&& field_name == adt.variants@[0].fields@[0].name@
        &&& field_ty == lowered(adt.variants@[0].fields@[0].ty)
        &&& class_name_of(lowered(ty)) == Some(owner_class)
        &&& reads_through(
            list.skip(1),
            adt.variants@[0].fields@[0].ty,
            Operand::Variable { name: dest, ty: field_ty },
            (depth - 1) as nat,
        )
    }
}

/// What the last of the instructions that read through fields read.
pub open spec fn read_at(list: Seq<InstructionModel>, k: int) -> Option<OperandModel> {
    match list[k] {
        InstructionModel::GetField { dest, field_ty, .. } => Some(
            Operand::Variable { name: dest, ty: field_ty },
        ),
        _ => None,
    }
}

proof fn pointer_is_read(
    ty: RustType,
    pointer: OperandModel,
    temp_prefix: Text,
    depth: usize,
    code: crate::code::CodeModel,
)
    requires
        depth <= 3,
        carries_pointer(ty, (3 - depth) as nat),
    ensures
        ({
            let (after, read) = crate::drop_glue::box_pointer(
                ty,
                pointer,
                temp_prefix,
                depth,
                code,
            );
            let list = after.instructions.skip(code.instructions.len() as int);
            &&& after.instructions =~= code.instructions + list
            &&& list.len() == 3 - depth
            &&& reads_through(list, ty, pointer, (3 - depth) as nat)
            &&& depth < 3 ==> read_at(list, 2 - depth) == Some(read)
            &&& depth == 3 ==> read == pointer
        }),
    decreases 3 - depth,
{
    let (after, read) = crate::drop_glue::box_pointer(ty, pointer, temp_prefix, depth, code);
    let list = after.instructions.skip(code.instructions.len() as int);
    if depth < 3 {
        let adt = ty.kind->Adt_0;
        let field = adt.variants@[0].fields@[0];
        let dest = temp_prefix + "_box_pointer_"@ + decimal_text(depth as nat);
        let instruction = InstructionModel::GetField {
            dest,
            object: pointer,
            field_name: field.name@,
            field_ty: lowered(field.ty),
            owner_class: crate::drop_glue::class_text(lowered(ty)),
        };
        let next = crate::code::emit(code, instruction);
        let operand = Operand::Variable { name: dest, ty: lowered(field.ty) };
        pointer_is_read(field.ty, operand, temp_prefix, (depth + 1) as usize, next);
        let rest = after.instructions.skip(next.instructions.len() as int);
        assert(list =~= seq![instruction] + rest);
        assert(list.skip(1) =~= rest);
    }
}

/// The action that drops what a box holds reads the pointer through the three classes of the box,
/// and drops what is behind exactly this pointer: a trait object through its pointer, a slice by
/// the given code, and any other value as the object that the pointer gives.
pub proof fn boxes_drop_what_they_hold(
    ty: RustType,
    adt: Adt,
    pointee: RustType,
    value: OperandModel,
    slice_drop: Seq<InstructionModel>,
    temp_prefix: Text,
)
    requires
        ty.kind == TypeKind::Adt(adt),
        adt.shape is Struct,
        adt.role is OwnedBox,
        boxed_type(adt) == Some(pointee),
        pointee.needs_drop,
        carries_pointer(ty, 3),
        adt.variants@[0].fields@.len() <= usize::MAX,
    ensures
        ({
            let action = drop_actions(ty, value, slice_drop, temp_prefix, no_actions())[0];
            &&& action.len() >= 3
            &&& reads_through(action.take(3), ty, value, 3)
            &&& read_at(action, 2) matches Some(pointer)
            &&& match pointee.kind {
                TypeKind::Dynamic(_) => {
                    &&& action.len() == 4
                    &&& action[3] matches InstructionModel::InvokeStatic {
                        class_name,
                        method_name,
                        args,
                        ..
                    }
                    &&& class_name == "org/rustlang/runtime/Pointer"@
                    &&& method_name == "dropTraitPointer"@
                    &&& args == seq![pointer]
                },
                TypeKind::Slice(_) => action.skip(3) == slice_drop,
                _ => {
                    &&& action.len() >= 4
                    &&& action[3] matches InstructionModel::InvokeVirtual {
                        dest: Some(object),
                        class_name,
                        method_name,
                        args,
                        operand,
                        ..
                    }
                    &&& class_name == "org/rustlang/runtime/Pointer"@
                    &&& method_name == "getObject"@
                    &&& args.len() == 0
                    &&& operand == pointer
                    &&& has_value(lowered(pointee)) ==> action.len() == 5 && drops_value(
                        action[4],
                        Operand::Variable {
                            name: object,
                            ty: Type::Class("java/lang/Object"@),
                        },
                    )
                },
            }
        }),
{
    reveal(drop_actions);
    reveal(owned_drop);
    reveal(boxed_drop);
    reveal(destructor_action);
    reveal(destructor_drop);
    reveal(value_drop);
    reveal(runtime_drop);
    reveal(args0);
    reveal(args1);
    reveal(params1);
    let actions = drop_actions(ty, value, slice_drop, temp_prefix, no_actions());
    let front = owned_drop(ty, adt, value, slice_drop, temp_prefix, no_actions());
    let more = destructor_action(ty, adt, value, front);
    let fields = adt.variants@[0].fields@;
    let rest = fields_are_dropped(
        fields,
        SlotNames::Declared,
        value,
        crate::drop_glue::class_text(lowered(ty)),
        temp_prefix + "_field_"@,
        0,
        more,
    );
    assert(actions[0] == front[0]);
    let code = crate::code::empty_code(0);
    pointer_is_read(ty, value, temp_prefix, 0, code);
    let (after, pointer) = crate::drop_glue::box_pointer(ty, value, temp_prefix, 0, code);
    let list = after.instructions;
    assert(list.skip(0) =~= list);
    assert(actions[0].take(3) =~= list);
    assert(pointee.kind is Slice ==> actions[0].skip(3) =~= slice_drop);
}

/// Dropping an enum runs its destructor, if it has one, and then the method of its variant that
/// drops the fields.
pub proof fn enums_drop_their_variant(
    ty: RustType,
    adt: Adt,
    owner: Text,
    value: OperandModel,
    slice_drop: Seq<InstructionModel>,
    temp_prefix: Text,
)
    requires
        ty.kind == TypeKind::Adt(adt),
        adt.shape is Enum,
        lowered(ty) == Type::<Text>::Class(owner),
    ensures
        ({
            let actions = drop_actions(ty, value, slice_drop, temp_prefix, no_actions());
            let last = actions.last();
            &&& actions.len() == if adt.has_destructor {
                2nat
            } else {
                1nat
            }
            &&& adt.has_destructor ==> destroys(actions[0], owner, value)
            &&& last.len() == 1
            &&& last[0] matches InstructionModel::InvokeVirtual {
                dest,
                class_name,
                method_name,
                method_ty,
                args,
                operand,
            }
            &&& dest is None
            &&& class_name == owner
            &&& method_name == "_rust_drop_fields"@
            &&& !method_ty.is_static
            &&& method_ty.ret is Void
            &&& args.len() == 0
            &&& operand == value
        }),
{
    reveal(drop_actions);
    reveal(destructor_action);
    reveal(destructor_drop);
    reveal(enum_fields_drop);
    reveal(args0);
    reveal(args1);
    reveal(params1);
}

/// Dropping an array or a trait object hands the value itself to the runtime, and dropping a union
/// or a number does nothing.
pub proof fn other_values_are_dropped_whole(
    ty: RustType,
    value: OperandModel,
    slice_drop: Seq<InstructionModel>,
    temp_prefix: Text,
)
    ensures
        ({
            let actions = drop_actions(ty, value, slice_drop, temp_prefix, no_actions());
            match ty.kind {
                TypeKind::Array { .. } | TypeKind::Dynamic(_) => {
                    &&& actions.len() == 1
                    &&& has_value(lowered(ty)) ==> actions[0].len() == 1 && drops_value(
                        actions[0][0],
                        value,
                    )
                },
                TypeKind::Adt(adt) => adt.shape is Union ==> actions.len() == 0,
                TypeKind::Tuple { .. } | TypeKind::Closure { .. } => true,
                _ => actions.len() == 0,
            }
        }),
{
    reveal(drop_actions);
    reveal(whole_drop);
    reveal(value_drop);
    reveal(runtime_drop);
    reveal(args1);
    reveal(params1);
}

/// The method of a struct that drops its fields does so in their order and returns; a destructor is
/// left out.
pub proof fn drop_fields_method_drops_the_fields(
    ty: RustType,
    adt: Adt,
    class_name: Text,
    slice_drop: Seq<InstructionModel>,
) -> (done: Seq<Seq<InstructionModel>>)
    requires
        ty.kind == TypeKind::Adt(adt),
        adt.shape is Struct,
        !(adt.role is OwnedBox),
        adt.variants@.len() > 0,
        adt.variants@[0].fields@.len() <= usize::MAX,
        lowered(ty) == Type::<Text>::Class(class_name),
    ensures
        ({
            let method = struct_drop_fields(ty, class_name, slice_drop);
            let own = Operand::Variable { name: "_1"@, ty: Type::Class(class_name) };
            &&& method.name == "_rust_drop_fields"@
            &&& !method.signature.is_static
            &&& method.signature.ret is Void
            &&& method.signature.params == seq![("self"@, Type::<Text>::Class(class_name))]
            &&& method.body == safe_drop_body(done)
            &&& drop_the_parts(done, ty, adt.variants@[0].fields@, own, class_name)
        }),
{
    reveal(struct_drop_fields);
    reveal(params1);
    let own = Operand::Variable { name: "_1"@, ty: Type::Class(class_name) };
    let done = structs_drop_their_fields(
        ty,
        adt,
        class_name,
        own,
        slice_drop,
        "_managed_drop_fields"@,
    );
    let actions = drop_actions(ty, own, slice_drop, "_managed_drop_fields"@, no_actions());
    assert(!adt.has_destructor ==> actions.skip(0) =~= actions);
    done
}

/// The method that drops a value does what it is given and returns.
pub proof fn drop_glue_runs_what_it_is_given(class_name: Text, drop_code: Seq<InstructionModel>)
    ensures
        ({
            let method = drop_glue(class_name, drop_code);
            &&& method.name == "rustDrop"@
            &&& !method.signature.is_static
            &&& method.signature.ret is Void
            &&& method.signature.params == seq![("self"@, Type::<Text>::Class(class_name))]
            &&& method.body.basic_blocks.contains_key(method.body.entry)
            &&& method.body.basic_blocks[method.body.entry].instructions == drop_code.push(
                InstructionModel::Return { operand: None },
            )
        }),
{
    reveal(drop_glue);
    reveal(params1);
    assert(Seq::<InstructionModel>::empty() + drop_code =~= drop_code);
}

proof fn slot_is_dropped(
    fields: Seq<Field>,
    i: int,
    value: OperandModel,
    class_name: Text,
    lists: Seq<Seq<InstructionModel>>,
) -> (action: Seq<InstructionModel>)
    requires
        0 <= i < fields.len() <= usize::MAX,
    ensures
        slot_drop(
            fields[i].ty,
            slots_of_variant(fields),
            i as usize,
            value,
            class_name,
            lists,
        ) == lists.push(action),
        drops_part(
            action,
            fields[i].ty,
            value,
            class_name,
            "field"@ + decimal_text(valued_before(fields, i as nat)),
        ),
{
    reveal(slot_drop);
    reveal(value_drop);
    reveal(runtime_drop);
    reveal(args1);
    reveal(params1);
    reveal(typed0);
    slot_drop(
        fields[i].ty,
        slots_of_variant(fields),
        i as usize,
        value,
        class_name,
        lists,
    ).last()
}

spec fn drops_slot(
    action: Seq<InstructionModel>,
    fields: Seq<Field>,
    value: OperandModel,
    class_name: Text,
    i: int,
) -> bool {
    0 <= i < fields.len() && drops_part(
        action,
        fields[i].ty,
        value,
        class_name,
        "field"@ + decimal_text(valued_before(fields, i as nat)),
    )
}

proof fn slots_are_dropped(
    fields: Seq<Field>,
    value: OperandModel,
    class_name: Text,
    from: nat,
    lists: Seq<Seq<InstructionModel>>,
) -> (done: Seq<Seq<InstructionModel>>)
    requires
        from <= fields.len() <= usize::MAX,
    ensures
        variant_field_drops(fields, slots_of_variant(fields), value, class_name, from, lists)
            == lists + done,
        done.len() == dropped_from(fields, from).len(),
        forall|k: int|
            0 <= k < done.len() ==> drops_slot(
                #[trigger] done[k],
                fields,
                value,
                class_name,
                dropped_from(fields, from)[k],
            ),
    decreases fields.len() - from,
{
    if from == fields.len() {
        reveal(Seq::filter);
        let done = Seq::<Seq<InstructionModel>>::empty();
        assert(lists + done =~= lists);
        done
    } else {
        next_dropped(fields, from);
        if fields[from as int].ty.needs_drop {
            let action = slot_is_dropped(fields, from as int, value, class_name, lists);
            let more = lists.push(action);
            let rest = slots_are_dropped(fields, value, class_name, from + 1, more);
            let done = seq![action] + rest;
            assert(more + rest =~= lists + done);
            assert forall|k: int| 0 <= k < done.len() implies drops_slot(
                #[trigger] done[k],
                fields,
                value,
                class_name,
                dropped_from(fields, from)[k],
            ) by {
                if k > 0 {
                    assert(done[k] == rest[k - 1]);
                    assert(dropped_from(fields, from)[k] == dropped_from(fields, from + 1)[k - 1]);
                }
            }
            done
        } else {
            slots_are_dropped(fields, value, class_name, from + 1, lists)
        }
    }
}

/// The method of a variant that drops its fields drops each that has to be dropped, in their order;
/// each is read from its field of the class of the variant.
pub proof fn variants_drop_their_fields(fields: Seq<Field>, class_name: Text) -> (done: Seq<
    Seq<InstructionModel>,
>)
    requires
        fields.len() <= usize::MAX,
    ensures
        ({
            let method = variant_drop_fields(fields, class_name);
            let own = Operand::Variable { name: "_1"@, ty: Type::Class(class_name) };
            &&& method.name == "_rust_drop_fields"@
            &&& !method.signature.is_static
            &&& method.signature.ret is Void
            &&& method.signature.params == seq![("self"@, Type::<Text>::Class(class_name))]
            &&& method.body == safe_drop_body(done)
            &&& done.len() == dropped(fields).len()
            &&& forall|k: int|
                0 <= k < done.len() ==> drops_part(
                    #[trigger] done[k],
                    fields[dropped(fields)[k]].ty,
                    own,
                    class_name,
                    "field"@ + decimal_text(valued_before(fields, dropped(fields)[k] as nat)),
                )
        }),
{
    reveal(variant_drop_fields);
    reveal(params1);
    let own = Operand::Variable { name: "_1"@, ty: Type::Class(class_name) };
    let done = slots_are_dropped(fields, own, class_name, 0, no_actions());
    assert(no_actions() + done =~= done);
    done
}

} // verus!
