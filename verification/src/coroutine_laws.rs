//! What a pointer to a coroutine is told of the values that the coroutine holds.
use crate::code::{
    CodeModel, DefinitionsModel, emit, empty_code, no_blocks, pointer_to, reads_field, variable,
};
use crate::coroutine_codec::{binding_of, places_bound, state_switch, state_targets, states_bound};
use crate::enum_codec::variant_label;
use crate::enum_laws::variant_labels_differ;
use crate::layout::{SlotModel, slot_at};
use crate::oomir::{
    BasicBlockModel, ConstantModel, InstructionModel, Operand, OperandModel, Text, Type, TypeModel,
};
use crate::pointer_codec::{memory_binding, memory_bindings};
use crate::rust_type::{Coroutine, CoroutineLayout, CoroutineState, Field, RustType, SavedPlace};
use vstd::prelude::*;
use vstd::string::*;

verus! {

/// Whether fields and their slots are those of saved values at their places: each field has the
/// type of the saved value and stands where the value does, and a place without a value has no
/// slot.
pub open spec fn are_places(
    fields: Seq<Field>,
    field_slots: Seq<Option<SlotModel>>,
    places: Seq<SavedPlace>,
    saved: Seq<RustType>,
    slots: Seq<Option<SlotModel>>,
) -> bool {
    &&& fields.len() == places.len()
    &&& field_slots.len() == places.len()
    &&& forall|i: int|
        0 <= i < places.len() ==> if places[i].index < saved.len() {
            &&& (#[trigger] fields[i]).ty == saved[places[i].index as int]
            &&& fields[i].offset == places[i].offset
            &&& field_slots[i] == slot_at(slots, places[i].index)
        } else {
            field_slots[i] is None
        }
}

/// A pointer to a coroutine is told of the values that are saved in a state as a pointer to an
/// object is told of fields of their types at their places.
pub proof fn saved_values_are_bound_as_fields(
    fields: Seq<Field>,
    field_slots: Seq<Option<SlotModel>>,
    places: Seq<SavedPlace>,
    saved: Seq<RustType>,
    slots: Seq<Option<SlotModel>>,
    class_name: Text,
    pointer: OperandModel,
    source: OperandModel,
    from: nat,
    code: CodeModel,
    defs: DefinitionsModel,
)
    requires
        are_places(fields, field_slots, places, saved, slots),
        places.len() <= usize::MAX,
    ensures
        places_bound(places, saved, slots, class_name, pointer, source, from, code, defs)
            == memory_bindings(
            fields,
            field_slots,
            class_name,
            pointer,
            source,
            from,
            code,
            defs,
        ),
    decreases places.len() - from,
{
    if from < places.len() {
        let item = fields[from as int];
        let place = places[from as int];
        assert(slot_at(field_slots, from as usize) == field_slots[from as int]);
        saved_values_are_bound_as_fields(
            fields,
            field_slots,
            places,
            saved,
            slots,
            class_name,
            pointer,
            source,
            from + 1,
            code,
            defs,
        );
        if place.index < saved.len() && field_slots[from as int] is Some {
            let (next, ready, _) = memory_binding(
                item.ty,
                field_slots[from as int]->0,
                item.offset,
                class_name,
                pointer,
                source,
                code,
                defs,
            );
            saved_values_are_bound_as_fields(
                fields,
                field_slots,
                places,
                saved,
                slots,
                class_name,
                pointer,
                source,
                from + 1,
                next,
                ready,
            );
        }
    }
}

/// Whether a block binds the places of a state and returns.
pub open spec fn binds_places(
    block: BasicBlockModel,
    places: Seq<SavedPlace>,
    saved: Seq<RustType>,
    slots: Seq<Option<SlotModel>>,
    class_name: Text,
    pointer: OperandModel,
    source: OperandModel,
    before: (CodeModel, DefinitionsModel),
) -> bool {
    &&& before.0.instructions.len() == 0
    &&& block.instructions == places_bound(
        places,
        saved,
        slots,
        class_name,
        pointer,
        source,
        0,
        before.0,
        before.1,
    ).0.instructions.push(InstructionModel::Return { operand: None })
}

/// Whether a block binds the places of a state and does nothing else.
pub open spec fn is_for_places(
    block: BasicBlockModel,
    places: Seq<SavedPlace>,
    saved: Seq<RustType>,
    slots: Seq<Option<SlotModel>>,
    class_name: Text,
    pointer: OperandModel,
    source: OperandModel,
) -> bool {
    exists|before: (CodeModel, DefinitionsModel)| #[trigger]
        binds_places(block, places, saved, slots, class_name, pointer, source, before)
}

/// Whether a state has a block under the label of its number, in which its places are bound.
pub open spec fn has_bindings(
    blocks: Map<Text, BasicBlockModel>,
    variants: Seq<CoroutineState>,
    i: int,
    saved: Seq<RustType>,
    slots: Seq<Option<SlotModel>>,
    class_name: Text,
    pointer: OperandModel,
    source: OperandModel,
) -> bool {
    let label = variant_label(i as usize);
    &&& blocks.dom().contains(label)
    &&& is_for_places(
        blocks[label],
        variants[i].places@,
        saved,
        slots,
        class_name,
        pointer,
        source,
    )
}

/// Whether two maps have the same block under a label, or both none.
pub open spec fn has_same_block(
    after: Map<Text, BasicBlockModel>,
    before: Map<Text, BasicBlockModel>,
    label: Text,
) -> bool {
    &&& after.dom().contains(label) <==> before.dom().contains(label)
    &&& after[label] == before[label]
}

/// Whether a label is that of a variant from one on.
pub open spec fn is_labelled_from(label: Text, from: nat, count: nat) -> bool {
    exists|i: int| from <= i < count && label == #[trigger] variant_label(i as usize)
}

/// Each state has a block under the label of its number, in which the places of this state are
/// bound; the other blocks stay as they are.
pub proof fn each_state_has_its_bindings(
    variants: Seq<CoroutineState>,
    saved: Seq<RustType>,
    slots: Seq<Option<SlotModel>>,
    class_name: Text,
    pointer: OperandModel,
    source: OperandModel,
    from: nat,
    code: CodeModel,
    defs: DefinitionsModel,
    blocks: Map<Text, BasicBlockModel>,
)
    requires
        variants.len() <= usize::MAX,
        code.instructions.len() == 0,
        states_bound(
            variants,
            saved,
            slots,
            class_name,
            pointer,
            source,
            from,
            code,
            defs,
            blocks,
        ).3 is Ok,
    ensures
        ({
            let after = states_bound(
                variants,
                saved,
                slots,
                class_name,
                pointer,
                source,
                from,
                code,
                defs,
                blocks,
            ).2;
            &&& forall|i: int|
                from <= i < variants.len() ==> #[trigger] has_bindings(
                    after,
                    variants,
                    i,
                    saved,
                    slots,
                    class_name,
                    pointer,
                    source,
                )
            &&& forall|label: Text|
                !is_labelled_from(label, from, variants.len()) ==> #[trigger] has_same_block(
                    after,
                    blocks,
                    label,
                )
        }),
    decreases variants.len() - from,
{
    if from < variants.len() {
        let item = variants[from as int];
        let label = variant_label(from as usize);
        let (bound, ready, _) = places_bound(
            item.places@,
            saved,
            slots,
            class_name,
            pointer,
            source,
            0,
            code,
            defs,
        );
        let list = bound.instructions.push(InstructionModel::Return { operand: None });
        let more = blocks.insert(label, BasicBlockModel { label, instructions: list });
        let next = empty_code(bound.temps);
        each_state_has_its_bindings(
            variants,
            saved,
            slots,
            class_name,
            pointer,
            source,
            from + 1,
            next,
            ready,
            more,
        );
        let after = states_bound(
            variants,
            saved,
            slots,
            class_name,
            pointer,
            source,
            from,
            code,
            defs,
            blocks,
        ).2;
        assert(after == states_bound(
            variants,
            saved,
            slots,
            class_name,
            pointer,
            source,
            from + 1,
            next,
            ready,
            more,
        ).2);
        assert(!is_labelled_from(label, from + 1, variants.len())) by {
            if is_labelled_from(label, from + 1, variants.len()) {
                let i = choose|i: int|
                    from + 1 <= i < variants.len() && label == #[trigger] variant_label(i as usize);
                variant_labels_differ(from as usize, i as usize);
            }
        }
        assert(has_same_block(after, more, label));
        assert(binds_places(
            after[label],
            item.places@,
            saved,
            slots,
            class_name,
            pointer,
            source,
            (code, defs),
        ));
        assert forall|i: int| from <= i < variants.len() implies #[trigger] has_bindings(
            after,
            variants,
            i,
            saved,
            slots,
            class_name,
            pointer,
            source,
        ) by {
            if i == from {
                assert(more.dom().contains(label));
                assert(is_for_places(
                    after[label],
                    item.places@,
                    saved,
                    slots,
                    class_name,
                    pointer,
                    source,
                ));
            }
        }
        assert forall|other: Text|
            !is_labelled_from(other, from, variants.len()) implies #[trigger] has_same_block(
            after,
            blocks,
            other,
        ) by {
            assert(other != label) by {
                if other == label {
                    assert(other == variant_label((from as int) as usize));
                }
            }
            assert(!is_labelled_from(other, from + 1, variants.len())) by {
                if is_labelled_from(other, from + 1, variants.len()) {
                    let i = choose|i: int|
                        from + 1 <= i < variants.len() && other == #[trigger] variant_label(
                            i as usize,
                        );
                    assert(from <= i && other == variant_label(i as usize));
                }
            }
            assert(has_same_block(after, more, other));
        }
    }
}

/// The code that tells of the captures and reads the state, and the definitions then.
spec fn captures_told(
    coroutine: Coroutine,
    capture_slots: Seq<Option<SlotModel>>,
    value_ty: TypeModel,
    code: CodeModel,
    defs: DefinitionsModel,
) -> (CodeModel, DefinitionsModel, Result<(), Text>) {
    memory_bindings(
        coroutine.captures@,
        capture_slots,
        coroutine.class_name@,
        variable("_1"@, pointer_to(value_ty)),
        variable("_2"@, value_ty),
        0,
        code,
        defs,
    )
}

/// The blocks of the states behind the one that reads the state.
spec fn states_told(
    coroutine: Coroutine,
    layout: CoroutineLayout,
    saved_slots: Seq<Option<SlotModel>>,
    value_ty: TypeModel,
    told: CodeModel,
    ready: DefinitionsModel,
) -> (CodeModel, DefinitionsModel, Map<Text, BasicBlockModel>, Result<(), Text>) {
    let (next, blocks) = state_switch(
        layout.variants@,
        state_read(coroutine, value_ty, told),
        no_blocks(),
    );
    states_bound(
        layout.variants@,
        layout.saved@,
        saved_slots,
        coroutine.class_name@,
        variable("_1"@, pointer_to(value_ty)),
        variable("_2"@, value_ty),
        0,
        next,
        ready,
        blocks,
    )
}

/// Code with the instruction that reads the state of a coroutine behind it.
spec fn state_read(coroutine: Coroutine, value_ty: TypeModel, code: CodeModel) -> CodeModel {
    emit(
        code,
        reads_field(
            "_coroutine_state"@,
            variable("_2"@, value_ty),
            "__state"@,
            Type::I32,
            coroutine.class_name@,
        ),
    )
}

proof fn binding_is_put_together(
    coroutine: Coroutine,
    layout: CoroutineLayout,
    capture_slots: Seq<Option<SlotModel>>,
    saved_slots: Seq<Option<SlotModel>>,
    value_ty: TypeModel,
    code: CodeModel,
    defs: DefinitionsModel,
)
    requires
        coroutine.layout == Ok::<CoroutineLayout, String>(layout),
        binding_of(coroutine, capture_slots, saved_slots, value_ty, code, defs).2 is Ok,
    ensures
        ({
            let (told, ready, _) = captures_told(coroutine, capture_slots, value_ty, code, defs);
            let (_, _, blocks, outcome) = states_told(
                coroutine,
                layout,
                saved_slots,
                value_ty,
                told,
                ready,
            );
            let bind = binding_of(
                coroutine,
                capture_slots,
                saved_slots,
                value_ty,
                code,
                defs,
            ).2->Ok_0;
            &&& outcome is Ok
            &&& bind.name == "bind"@
            &&& bind.body.entry == "entry"@
            &&& bind.body.basic_blocks == blocks
        }),
{
}

proof fn state_is_switched_on(variants: Seq<CoroutineState>, code: CodeModel)
    ensures
        ({
            let (next, blocks) = state_switch(variants, code, no_blocks());
            &&& next.instructions.len() == 0
            &&& blocks.dom().contains("entry"@)
            &&& blocks["entry"@].instructions == code.instructions.push(
                InstructionModel::Switch {
                    discr: Operand::Variable { name: "_coroutine_state"@, ty: Type::I32 },
                    targets: state_targets(variants.len()),
                    otherwise: "invalid_state"@,
                },
            )
        }),
{
    reveal(state_switch);
    reveal_strlit("entry");
    reveal_strlit("invalid_state");
    assert("entry"@[0] == 'e');
    assert("invalid_state"@[0] == 'i');
}

proof fn labels_start_alike(count: nat)
    ensures
        !is_labelled_from("entry"@, 0, count),
        forall|i: usize| #[trigger] variant_label(i) != "invalid_state"@,
{
    reveal_strlit("entry");
    reveal_strlit("invalid_state");
    reveal_strlit("variant_");
    assert("entry"@[0] == 'e');
    assert("invalid_state"@[0] == 'i');
    assert forall|i: usize| (#[trigger] variant_label(i))[0] == 'v' by {
        assert("variant_"@[0] == 'v');
    }
}

/// A pointer to a coroutine is told of what the coroutine has captured and of what it has saved in
/// the state that it is in: the state that is read from the coroutine leads to the block of this
/// state.
pub proof fn bindings_go_by_the_state(
    coroutine: Coroutine,
    layout: CoroutineLayout,
    capture_slots: Seq<Option<SlotModel>>,
    saved_slots: Seq<Option<SlotModel>>,
    value_ty: TypeModel,
    code: CodeModel,
    defs: DefinitionsModel,
)
    requires
        coroutine.layout == Ok::<CoroutineLayout, String>(layout),
        layout.variants@.len() <= usize::MAX,
        binding_of(coroutine, capture_slots, saved_slots, value_ty, code, defs).2 is Ok,
    ensures
        ({
            let class_name = coroutine.class_name@;
            let pointer = Operand::Variable {
                name: "_1"@,
                ty: Type::Pointer(Box::new(value_ty)),
            };
            let value = Operand::Variable { name: "_2"@, ty: value_ty };
            let told = memory_bindings(
                coroutine.captures@,
                capture_slots,
                class_name,
                pointer,
                value,
                0,
                code,
                defs,
            ).0.instructions;
            let (_, _, outcome) = binding_of(
                coroutine,
                capture_slots,
                saved_slots,
                value_ty,
                code,
                defs,
            );
            let bind = outcome->Ok_0;
            let blocks = bind.body.basic_blocks;
            let list = blocks[bind.body.entry].instructions;
            let n = told.len() as int;
            &&& bind.name == "bind"@
            &&& blocks.dom().contains(bind.body.entry)
            &&& list.len() == n + 2
            &&& list.take(n) == told
            &&& list[n] matches InstructionModel::GetField {
                dest,
                object,
                field_name,
                owner_class,
                ..
            }
            &&& object == value
            &&& field_name == "__state"@
            &&& owner_class == class_name
            &&& list[n + 1] matches InstructionModel::Switch { discr, targets, otherwise }
            &&& discr == (Operand::Variable { name: dest, ty: Type::I32 })
            &&& targets.len() == layout.variants@.len()
            &&& forall|i: int|
                0 <= i < targets.len() ==> #[trigger] targets[i] == (
                    ConstantModel::I32(i as i32),
                    variant_label(i as usize),
                )
            &&& forall|i: int|
                0 <= i < targets.len() ==> #[trigger] has_bindings(
                    blocks,
                    layout.variants@,
                    i,
                    layout.saved@,
                    saved_slots,
                    class_name,
                    pointer,
                    value,
                )
            &&& forall|i: int| 0 <= i < targets.len() ==> (#[trigger] targets[i]).1 != otherwise
        }),
{
    let class_name = coroutine.class_name@;
    let pointer = variable("_1"@, pointer_to(value_ty));
    let value = variable("_2"@, value_ty);
    let (told, ready, _) = captures_told(coroutine, capture_slots, value_ty, code, defs);
    binding_is_put_together(
        coroutine,
        layout,
        capture_slots,
        saved_slots,
        value_ty,
        code,
        defs,
    );
    let read = state_read(coroutine, value_ty, told);
    let (next, blocks) = state_switch(layout.variants@, read, no_blocks());
    state_is_switched_on(layout.variants@, read);
    each_state_has_its_bindings(
        layout.variants@,
        layout.saved@,
        saved_slots,
        class_name,
        pointer,
        value,
        0,
        next,
        ready,
        blocks,
    );
    labels_start_alike(layout.variants@.len());
    let after = states_told(coroutine, layout, saved_slots, value_ty, told, ready).2;
    assert(has_same_block(after, blocks, "entry"@));
    let list = after["entry"@].instructions;
    let n = told.instructions.len() as int;
    assert(list.take(n) =~= told.instructions);
    let targets = state_targets(layout.variants@.len());
    assert forall|i: int| 0 <= i < targets.len() implies (#[trigger] targets[i]).1
        != "invalid_state"@ by {
        assert(targets[i].1 == variant_label(i as usize));
    }
}

} // verus!
