//! The codec classes of coroutines.
use crate::code::{
    Code, CodeModel, Definitions, DefinitionsModel, append_value, array_new, byte_array,
    byte_array_type, construct, copies, copy_value, emit, empty_blocks, empty_code, empty_methods,
    field_read, flush_block, flushed, fresh, function_put, i32_operand, i32_value, make_function,
    make_params1, make_params2, make_typed0, makes_array, makes_object, no_blocks, no_methods,
    object_class, object_type, operand_var, outcome_model, params1, params2, plain_function,
    pointer_to, pointer_type, put_function, reads_field, return_nothing, return_value,
    returns_nothing, returns_value, static_method, static_signature, switch_on, switches,
    throw_new, throws_new, typed0, unit_outcome, value_appended, variable,
};
use crate::codec::{default_operand_for_codec, default_value};
use crate::definitions::{is_class, is_class_name, is_interface, is_interface_name};
use crate::descriptor::is_reference;
use crate::enum_codec::{variant_label, variant_label_of};
use crate::layout::{
    Slot, SlotModel, SlotNames, coroutine_valid, exact_bytes, exact_bytes_supported,
    find_undeclared, find_undeclared_saved, get_slot, is_nested, needs_nested_memory_binding,
    plan_saved_slots, plan_slots, slot_at, slots_of_fields, slots_of_saved, types_valid,
    undeclared_fields, undeclared_saved,
};
use crate::load::{emit_fields_from_union_bytes, emit_ty_from_union_bytes, loaded, loaded_fields};
use crate::lowering::{
    coroutine_defined, define_coroutine, define_undeclared, define_undeclared_saved,
    undeclared_defined, undeclared_saved_defined,
};
use crate::name_map::NameMap;
use crate::oomir::{
    BasicBlock, BasicBlockModel, CodeBlock, CodeBlockModel, Constant, ConstantModel,
    DataTypeMethod, DataTypeMethodModel, Function, FunctionModel, Operand, OperandModel,
    Signature, SignatureModel, Text, Type, TypeModel,
};
use crate::pointer_codec::{
    add_all, all_added, codec_ready, codec_started, emit_aggregate_memory_bindings,
    emit_memory_binding, is_codec_ready, memory_binding, memory_bindings, start_codec, undefine,
    undefined,
};
use crate::rust_type::{
    Coroutine, CoroutineState, RustType, SavedPlace, StatePlace, at_least_one, is_dynamic,
    is_trait_object, layout_size_bytes, lowered, one_or_more, size_of,
};
use crate::store::{emit_aggregate_to_union_bytes, emit_ty_to_union_bytes, stored, stored_fields};
use crate::text::cat3;
use crate::union_storage::{
    UnionStorage, UnionStorageModel, emit_bits_from_union_bytes, emit_bits_to_union_bytes,
    loaded_bits, small_number, small_number_of, storage_at_start, stored_bits,
};
use vstd::prelude::*;
use vstd::string::*;

verus! {

/// The positions of the states with the labels of their blocks.
pub open spec fn state_targets(count: nat) -> Seq<(ConstantModel, Text)> {
    Seq::new(count, |i: int| (Constant::I32(i as i32), variant_label(i as usize)))
}

/// The positions of the states with the labels of their blocks.
pub fn state_targets_of(variants: &Vec<CoroutineState>) -> (r: Vec<(Constant, String)>)
    ensures
        r.deep_view() == state_targets(variants@.len()),
{
    let mut r: Vec<(Constant, String)> = Vec::new();
    for i in 0..variants.len()
        invariant
            r@.len() == i,
            forall|k: int|
                #![trigger r@[k]]
                0 <= k < i ==> r@[k].deep_view() == state_targets(variants@.len())[k],
    {
        r.push((Constant::I32(i as i32), variant_label_of(i)));
    }
    assert(r.deep_view() =~= state_targets(variants@.len()));
    r
}

/// The first block of a codec of coroutines, which goes on at the block of the state, and the block
/// for states that there are not.
#[verifier::opaque]
pub open spec fn state_switch(
    variants: Seq<CoroutineState>,
    code: CodeModel,
    blocks: Map<Text, BasicBlockModel>,
) -> (CodeModel, Map<Text, BasicBlockModel>) {
    let code = emit(
        code,
        switches(
            variable("_coroutine_state"@, Type::I32),
            (state_targets(variants.len())),
            "invalid_state"@,
        ),
    );
    let (code, blocks) = flushed("entry"@, code, blocks);
    let code = emit(
        code,
        throws_new("java/lang/IllegalStateException"@, "invalid Rust coroutine state"@),
    );
    let (code, blocks) = flushed("invalid_state"@, code, blocks);
    (code, blocks)
}

/// Ends the first block of a codec of coroutines.
pub fn emit_state_switch(
    variants: &Vec<CoroutineState>,
    code: &mut Code,
    blocks: &mut NameMap<BasicBlock>,
)
    ensures
        (
            final(code).deep_view(),
            final(blocks).deep_view(),
        ) == state_switch(variants@, old(code).deep_view(), old(blocks).deep_view()),
{
    proof {
        reveal(state_switch);
    }
    code.push(
        switch_on(
            &operand_var("_coroutine_state", &Type::I32),
            &state_targets_of(variants),
            "invalid_state",
        ),
    );
    flush_block("entry", code, blocks);
    code.push(throw_new("java/lang/IllegalStateException", "invalid Rust coroutine state"));
    flush_block("invalid_state", code, blocks);
}

/// A saved value of a coroutine.
pub open spec fn is_saved(saved: Seq<RustType>, index: usize) -> bool {
    index < saved.len()
}

/// A saved value of a coroutine.
pub fn is_saved_value(saved: &Vec<RustType>, index: usize) -> (r: bool)
    ensures
        r == is_saved(saved@, index),
{
    index < saved.len()
}

/// A saved value of a coroutine.
pub fn saved_value(saved: &Vec<RustType>, index: usize) -> (r: &RustType)
    requires
        index < saved@.len(),
    ensures
        *r == saved@[index as int],
{
    &saved[index]
}

/// Stores the saved values of a state from one on.
pub open spec fn places_stored(
    places: Seq<SavedPlace>,
    saved: Seq<RustType>,
    slots: Seq<Option<SlotModel>>,
    class_name: Text,
    source: OperandModel,
    storage: UnionStorageModel,
    from: nat,
    code: CodeModel,
    defs: DefinitionsModel,
) -> (CodeModel, DefinitionsModel, Result<(), Text>)
    decreases saved, 0nat, places.len() - from,
{
    if from >= places.len() {
        (code, defs, Ok(()))
    } else {
        let item = places[from as int];
        match slot_at(slots, item.index) {
            None => {
                places_stored(
                    places,
                    saved,
                    slots,
                    class_name,
                    source,
                    storage,
                    from + 1,
                    code,
                    defs,
                )
            },
            Some(slot) => {
                if is_saved(saved, item.index) && !is_dynamic((saved[item.index as int])) {
                    let (code, field_dest) = fresh(code, "union_aggregate_field"@);
                    let code = emit(
                        code,
                        reads_field(field_dest, source, slot.name, slot.ty, class_name),
                    );
                    let (code, defs, outcome) = stored(
                        (saved[item.index as int]),
                        variable(field_dest, slot.ty),
                        storage,
                        item.offset,
                        code,
                        defs,
                    );
                    match outcome {
                        Err(error) => (code, defs, Err(error)),
                        Ok(_) => {
                            places_stored(
                                places,
                                saved,
                                slots,
                                class_name,
                                source,
                                storage,
                                from + 1,
                                code,
                                defs,
                            )
                        },
                    }
                } else {
                    places_stored(
                        places,
                        saved,
                        slots,
                        class_name,
                        source,
                        storage,
                        from + 1,
                        code,
                        defs,
                    )
                }
            },
        }
    }
}

/// Stores the saved values of a state.
pub fn emit_places_to(
    places: &Vec<SavedPlace>,
    saved: &Vec<RustType>,
    slots: &Vec<Option<Slot>>,
    class_name: &str,
    source: &Operand,
    storage: &UnionStorage,
    code: &mut Code,
    defs: &mut Definitions,
) -> (r: Result<(), String>)
    requires
        types_valid(saved@),
    ensures
        (final(code).deep_view(), final(defs).deep_view(), unit_outcome(r)) == places_stored(
            places@,
            saved@,
            slots.deep_view(),
            class_name@,
            source.deep_view(),
            storage.deep_view(),
            0,
            old(code).deep_view(),
            old(defs).deep_view(),
        ),
    decreases saved@, 0nat,
{
    let ghost start = places_stored(
            places@,
            saved@,
            slots.deep_view(),
            class_name@,
            source.deep_view(),
            storage.deep_view(),
            0,
            code.deep_view(),
            defs.deep_view(),
        );
    for i in 0..places.len()
        invariant
            types_valid(saved@),
            places_stored(
                places@,
                saved@,
                slots.deep_view(),
                class_name@,
                source.deep_view(),
                storage.deep_view(),
                i as nat,
                code.deep_view(),
                defs.deep_view(),
            ) == start,
            start == places_stored(
                places@,
                saved@,
                slots.deep_view(),
                class_name@,
                source.deep_view(),
                storage.deep_view(),
                0,
                old(code).deep_view(),
                old(defs).deep_view(),
            ),
    {
        let item = &places[i];
        match &get_slot(slots, item.index) {
            None => {

            },
            Some(slot) => {
                if is_saved_value(saved, item.index) && !is_trait_object(
                    &saved_value(saved, item.index),
                ) {
                    let field_dest = code.fresh("union_aggregate_field");
                    code.push(
                        field_read(
                            field_dest.as_str(),
                            source,
                            slot.name.as_str(),
                            &slot.ty,
                            class_name,
                        ),
                    );
                    let _done = match emit_ty_to_union_bytes(
                        &saved_value(saved, item.index),
                        &operand_var(field_dest.as_str(), &slot.ty),
                        storage,
                        item.offset,
                        code,
                        defs,
                    ) {
                        Ok(value) => value,
                        Err(error) => return Err(error),
                    };

                } else {

                }
            },
        }
    }
    Ok(())
}

/// The blocks that store the states from one on.
pub open spec fn states_stored(
    variants: Seq<CoroutineState>,
    saved: Seq<RustType>,
    slots: Seq<Option<SlotModel>>,
    class_name: Text,
    value_ty: TypeModel,
    storage: UnionStorageModel,
    from: nat,
    code: CodeModel,
    defs: DefinitionsModel,
    blocks: Map<Text, BasicBlockModel>,
) -> (CodeModel, DefinitionsModel, Map<Text, BasicBlockModel>, Result<(), Text>)
    decreases saved, 1nat, variants.len() - from,
{
    if from >= variants.len() {
        (code, defs, blocks, Ok(()))
    } else {
        let item = variants[from as int];
        let (code, defs, outcome) = places_stored(
            item.places@,
            saved,
            slots,
            class_name,
            variable("_1"@, value_ty),
            storage,
            0,
            code,
            defs,
        );
        match outcome {
            Err(error) => (code, defs, blocks, Err(error)),
            Ok(_) => {
                let code = emit(code, returns_value(variable("_bytes"@, byte_array())));
                let (code, blocks) = flushed(variant_label((from as usize)), code, blocks);
                states_stored(
                    variants,
                    saved,
                    slots,
                    class_name,
                    value_ty,
                    storage,
                    from + 1,
                    code,
                    defs,
                    blocks,
                )
            },
        }
    }
}

/// Adds the blocks that store the states.
pub fn emit_states_to(
    variants: &Vec<CoroutineState>,
    saved: &Vec<RustType>,
    slots: &Vec<Option<Slot>>,
    class_name: &str,
    value_ty: &Type,
    storage: &UnionStorage,
    code: &mut Code,
    defs: &mut Definitions,
    blocks: &mut NameMap<BasicBlock>,
) -> (r: Result<(), String>)
    requires
        types_valid(saved@),
    ensures
        (
            final(code).deep_view(),
            final(defs).deep_view(),
            final(blocks).deep_view(),
            unit_outcome(r),
        ) == states_stored(
            variants@,
            saved@,
            slots.deep_view(),
            class_name@,
            value_ty.deep_view(),
            storage.deep_view(),
            0,
            old(code).deep_view(),
            old(defs).deep_view(),
            old(blocks).deep_view(),
        ),
    decreases saved@, 1nat,
{
    let ghost start = states_stored(
            variants@,
            saved@,
            slots.deep_view(),
            class_name@,
            value_ty.deep_view(),
            storage.deep_view(),
            0,
            code.deep_view(),
            defs.deep_view(),
            blocks.deep_view(),
        );
    for i in 0..variants.len()
        invariant
            types_valid(saved@),
            states_stored(
                variants@,
                saved@,
                slots.deep_view(),
                class_name@,
                value_ty.deep_view(),
                storage.deep_view(),
                i as nat,
                code.deep_view(),
                defs.deep_view(),
                blocks.deep_view(),
            ) == start,
            start == states_stored(
                variants@,
                saved@,
                slots.deep_view(),
                class_name@,
                value_ty.deep_view(),
                storage.deep_view(),
                0,
                old(code).deep_view(),
                old(defs).deep_view(),
                old(blocks).deep_view(),
            ),
    {
        let item = &variants[i];
        let _done = match emit_places_to(
            &item.places,
            saved,
            slots,
            class_name,
            &operand_var("_1", value_ty),
            storage,
            code,
            defs,
        ) {
            Ok(value) => value,
            Err(error) => return Err(error),
        };
        code.push(return_value(&operand_var("_bytes", &byte_array_type())));
        flush_block(variant_label_of(i).as_str(), code, blocks);
    }
    Ok(())
}

/// Where a state holds a saved value: the last place that names it.
pub open spec fn place_of(places: Seq<SavedPlace>, index: usize) -> Option<usize>
    decreases places.len(),
{
    if places.len() == 0 {
        None
    } else if places.last().index == index {
        Some(places.last().offset)
    } else {
        place_of(places.drop_last(), index)
    }
}

/// Where a state holds a saved value: the last place that names it.
pub fn find_place(places: &Vec<SavedPlace>, index: usize) -> (r: Option<usize>)
    ensures
        r == place_of(places@, index),
{
    let mut r: Option<usize> = None;
    for i in 0..places.len()
        invariant
            r == place_of(places@.take(i as int), index),
    {
        assert(places@.take(i + 1).drop_last() =~= places@.take(i as int));
        assert(places@.take(i + 1).last() == places@[i as int]);
        if places[i].index == index {
            r = Some(places[i].offset);
        }
    }
    assert(places@.take(places@.len() as int) =~= places@);
    r
}

/// The saved values from one on: those that the state holds, and defaults for the others.
pub open spec fn saved_loaded(
    saved: Seq<RustType>,
    slots: Seq<Option<SlotModel>>,
    places: Seq<SavedPlace>,
    storage: UnionStorageModel,
    from: nat,
    code: CodeModel,
    defs: DefinitionsModel,
    values: Seq<(OperandModel, TypeModel)>,
) -> (CodeModel, DefinitionsModel, Seq<(OperandModel, TypeModel)>, Result<(), Text>)
    decreases saved, 0nat, saved.len() - from,
{
    if from >= saved.len() {
        (code, defs, values, Ok(()))
    } else {
        let item = saved[from as int];
        match slot_at(slots, (from as usize)) {
            None => {
                saved_loaded(saved, slots, places, storage, from + 1, code, defs, values)
            },
            Some(slot) => {
                match place_of(places, (from as usize)) {
                    None => {
                        let values = value_appended(default_value(slot.ty), slot.ty, values);
                        saved_loaded(saved, slots, places, storage, from + 1, code, defs, values)
                    },
                    Some(offset) => {
                        let (code, defs, outcome) = loaded(item, storage, offset, code, defs);
                        match outcome {
                            Err(error) => (code, defs, values, Err(error)),
                            Ok(value) => {
                                let values = value_appended(value, slot.ty, values);
                                saved_loaded(
                                    saved,
                                    slots,
                                    places,
                                    storage,
                                    from + 1,
                                    code,
                                    defs,
                                    values,
                                )
                            },
                        }
                    },
                }
            },
        }
    }
}

/// Loads the saved values that a state holds; the others get their defaults.
pub fn emit_saved_from(
    saved: &Vec<RustType>,
    slots: &Vec<Option<Slot>>,
    places: &Vec<SavedPlace>,
    storage: &UnionStorage,
    code: &mut Code,
    defs: &mut Definitions,
    values: &mut Vec<(Operand, Type)>,
) -> (r: Result<(), String>)
    requires
        types_valid(saved@),
    ensures
        (
            final(code).deep_view(),
            final(defs).deep_view(),
            final(values).deep_view(),
            unit_outcome(r),
        ) == saved_loaded(
            saved@,
            slots.deep_view(),
            places@,
            storage.deep_view(),
            0,
            old(code).deep_view(),
            old(defs).deep_view(),
            old(values).deep_view(),
        ),
    decreases saved@, 0nat,
{
    let ghost start = saved_loaded(
            saved@,
            slots.deep_view(),
            places@,
            storage.deep_view(),
            0,
            code.deep_view(),
            defs.deep_view(),
            values.deep_view(),
        );
    for i in 0..saved.len()
        invariant
            types_valid(saved@),
            saved_loaded(
                saved@,
                slots.deep_view(),
                places@,
                storage.deep_view(),
                i as nat,
                code.deep_view(),
                defs.deep_view(),
                values.deep_view(),
            ) == start,
            start == saved_loaded(
                saved@,
                slots.deep_view(),
                places@,
                storage.deep_view(),
                0,
                old(code).deep_view(),
                old(defs).deep_view(),
                old(values).deep_view(),
            ),
    {
        let item = &saved[i];
        match &get_slot(slots, i) {
            None => {

            },
            Some(slot) => {
                match &find_place(places, i) {
                    None => {
                        append_value(&default_operand_for_codec(&slot.ty), &slot.ty, values);
                    },
                    Some(offset) => {
                        let value = match emit_ty_from_union_bytes(
                            item,
                            storage,
                            *offset,
                            code,
                            defs,
                        ) {
                            Ok(value) => value,
                            Err(error) => return Err(error),
                        };
                        append_value(&value, &slot.ty, values);
                    },
                }
            },
        }
    }
    Ok(())
}

/// A coroutine in one of its states.
pub open spec fn state_loaded(
    coroutine: Coroutine,
    state: CoroutineState,
    capture_slots: Seq<Option<SlotModel>>,
    saved_slots: Seq<Option<SlotModel>>,
    value_ty: TypeModel,
    storage: UnionStorageModel,
    code: CodeModel,
    defs: DefinitionsModel,
) -> (CodeModel, DefinitionsModel, Result<(), Text>)
    decreases coroutine, 5nat, 0nat,
{
    match coroutine.layout {
        Err(reason) => {
            (code, defs, Err(reason@))
        },
        Ok(layout) => {
            let values = typed0();
            let (code, defs, values, outcome) = loaded_fields(
                coroutine.captures@,
                capture_slots,
                storage,
                0,
                0,
                code,
                defs,
                values,
            );
            match outcome {
                Err(error) => (code, defs, Err(error)),
                Ok(_) => {
                    let values = value_appended(
                        variable("_coroutine_state"@, Type::I32),
                        Type::I32,
                        values,
                    );
                    let (code, defs, values, outcome) = saved_loaded(
                        layout.saved@,
                        saved_slots,
                        state.places@,
                        storage,
                        0,
                        code,
                        defs,
                        values,
                    );
                    match outcome {
                        Err(error) => (code, defs, Err(error)),
                        Ok(_) => {
                            let code = emit(
                                code,
                                makes_object("_coroutine_value"@, coroutine.class_name@, values),
                            );
                            let code = emit(
                                code,
                                returns_value(variable("_coroutine_value"@, value_ty)),
                            );
                            (code, defs, Ok(()))
                        },
                    }
                },
            }
        },
    }
}

/// Loads a coroutine in one of its states.
pub fn emit_state_from(
    coroutine: &Coroutine,
    state: &CoroutineState,
    capture_slots: &Vec<Option<Slot>>,
    saved_slots: &Vec<Option<Slot>>,
    value_ty: &Type,
    storage: &UnionStorage,
    code: &mut Code,
    defs: &mut Definitions,
) -> (r: Result<(), String>)
    requires
        coroutine_valid(*coroutine),
    ensures
        (final(code).deep_view(), final(defs).deep_view(), unit_outcome(r)) == state_loaded(
            *coroutine,
            *state,
            capture_slots.deep_view(),
            saved_slots.deep_view(),
            value_ty.deep_view(),
            storage.deep_view(),
            old(code).deep_view(),
            old(defs).deep_view(),
        ),
    decreases coroutine, 5nat,
{
    match &coroutine.layout {
        Err(reason) => {
            Err(reason.clone())
        },
        Ok(layout) => {
            let mut values = make_typed0();
            let _done = match emit_fields_from_union_bytes(
                &coroutine.captures,
                capture_slots,
                storage,
                0,
                code,
                defs,
                &mut values,
            ) {
                Ok(value) => value,
                Err(error) => return Err(error),
            };
            append_value(&operand_var("_coroutine_state", &Type::I32), &Type::I32, &mut values);
            let _done = match emit_saved_from(
                &layout.saved,
                saved_slots,
                &state.places,
                storage,
                code,
                defs,
                &mut values,
            ) {
                Ok(value) => value,
                Err(error) => return Err(error),
            };
            code.push(construct("_coroutine_value", coroutine.class_name.as_str(), &values));
            code.push(return_value(&operand_var("_coroutine_value", value_ty)));
            Ok(())
        },
    }
}

/// The blocks that load the states from one on.
pub open spec fn states_loaded(
    coroutine: Coroutine,
    variants: Seq<CoroutineState>,
    capture_slots: Seq<Option<SlotModel>>,
    saved_slots: Seq<Option<SlotModel>>,
    value_ty: TypeModel,
    storage: UnionStorageModel,
    from: nat,
    code: CodeModel,
    defs: DefinitionsModel,
    blocks: Map<Text, BasicBlockModel>,
) -> (CodeModel, DefinitionsModel, Map<Text, BasicBlockModel>, Result<(), Text>)
    decreases coroutine, 6nat, variants.len() - from,
{
    if from >= variants.len() {
        (code, defs, blocks, Ok(()))
    } else {
        let (code, defs, outcome) = state_loaded(
            coroutine,
            variants[from as int],
            capture_slots,
            saved_slots,
            value_ty,
            storage,
            code,
            defs,
        );
        match outcome {
            Err(error) => (code, defs, blocks, Err(error)),
            Ok(_) => {
                let (code, blocks) = flushed(variant_label(from as usize), code, blocks);
                states_loaded(
                    coroutine,
                    variants,
                    capture_slots,
                    saved_slots,
                    value_ty,
                    storage,
                    from + 1,
                    code,
                    defs,
                    blocks,
                )
            },
        }
    }
}

/// Adds the blocks that load the states.
#[verifier::rlimit(60)]
pub fn emit_states_from(
    coroutine: &Coroutine,
    variants: &Vec<CoroutineState>,
    capture_slots: &Vec<Option<Slot>>,
    saved_slots: &Vec<Option<Slot>>,
    value_ty: &Type,
    storage: &UnionStorage,
    code: &mut Code,
    defs: &mut Definitions,
    blocks: &mut NameMap<BasicBlock>,
) -> (r: Result<(), String>)
    requires
        coroutine_valid(*coroutine),
    ensures
        (
            final(code).deep_view(),
            final(defs).deep_view(),
            final(blocks).deep_view(),
            unit_outcome(r),
        )
            == states_loaded(
            *coroutine,
            variants@,
            capture_slots.deep_view(),
            saved_slots.deep_view(),
            value_ty.deep_view(),
            storage.deep_view(),
            0,
            old(code).deep_view(),
            old(defs).deep_view(),
            old(blocks).deep_view(),
        ),
    decreases coroutine, 6nat,
{
    let ghost start = states_loaded(
        *coroutine,
        variants@,
        capture_slots.deep_view(),
        saved_slots.deep_view(),
        value_ty.deep_view(),
        storage.deep_view(),
        0,
        code.deep_view(),
        defs.deep_view(),
        blocks.deep_view(),
    );
    for i in 0..variants.len()
        invariant
            coroutine_valid(*coroutine),
            start == states_loaded(
                *coroutine,
                variants@,
                capture_slots.deep_view(),
                saved_slots.deep_view(),
                value_ty.deep_view(),
                storage.deep_view(),
                i as nat,
                code.deep_view(),
                defs.deep_view(),
                blocks.deep_view(),
            ),
            start == states_loaded(
                *coroutine,
                variants@,
                capture_slots.deep_view(),
                saved_slots.deep_view(),
                value_ty.deep_view(),
                storage.deep_view(),
                0,
                old(code).deep_view(),
                old(defs).deep_view(),
                old(blocks).deep_view(),
            ),
    {
        match emit_state_from(
            coroutine,
            &variants[i],
            capture_slots,
            saved_slots,
            value_ty,
            storage,
            code,
            defs,
        ) {
            Ok(_) => {},
            Err(error) => {
                return Err(error);
            },
        }
        flush_block(variant_label_of(i).as_str(), code, blocks);
    }
    Ok(())
}

/// Tells a pointer where the saved values of a state stand, from one on.
pub open spec fn places_bound(
    places: Seq<SavedPlace>,
    saved: Seq<RustType>,
    slots: Seq<Option<SlotModel>>,
    class_name: Text,
    pointer: OperandModel,
    source: OperandModel,
    from: nat,
    code: CodeModel,
    defs: DefinitionsModel,
) -> (CodeModel, DefinitionsModel, Result<(), Text>)
    decreases saved, 0nat, places.len() - from,
{
    if from >= places.len() {
        (code, defs, Ok(()))
    } else {
        let item = places[from as int];
        match slot_at(slots, item.index) {
            None => {
                places_bound(
                    places,
                    saved,
                    slots,
                    class_name,
                    pointer,
                    source,
                    from + 1,
                    code,
                    defs,
                )
            },
            Some(slot) => {
                if is_saved(saved, item.index) && is_nested(
                    (saved[item.index as int]),
                ) && is_reference(slot.ty) {
                    let (code, defs, outcome) = memory_binding(
                        (saved[item.index as int]),
                        slot,
                        item.offset,
                        class_name,
                        pointer,
                        source,
                        code,
                        defs,
                    );
                    match outcome {
                        Err(error) => (code, defs, Err(error)),
                        Ok(_) => {
                            places_bound(
                                places,
                                saved,
                                slots,
                                class_name,
                                pointer,
                                source,
                                from + 1,
                                code,
                                defs,
                            )
                        },
                    }
                } else {
                    places_bound(
                        places,
                        saved,
                        slots,
                        class_name,
                        pointer,
                        source,
                        from + 1,
                        code,
                        defs,
                    )
                }
            },
        }
    }
}

/// Tells a pointer where the saved values of a state stand.
#[verifier::rlimit(60)]
pub fn emit_place_bindings(
    places: &Vec<SavedPlace>,
    saved: &Vec<RustType>,
    slots: &Vec<Option<Slot>>,
    class_name: &str,
    pointer: &Operand,
    source: &Operand,
    code: &mut Code,
    defs: &mut Definitions,
) -> (r: Result<(), String>)
    requires
        types_valid(saved@),
    ensures
        (final(code).deep_view(), final(defs).deep_view(), unit_outcome(r)) == places_bound(
            places@,
            saved@,
            slots.deep_view(),
            class_name@,
            pointer.deep_view(),
            source.deep_view(),
            0,
            old(code).deep_view(),
            old(defs).deep_view(),
        ),
    decreases saved@, 0nat,
{
    let ghost start = places_bound(
            places@,
            saved@,
            slots.deep_view(),
            class_name@,
            pointer.deep_view(),
            source.deep_view(),
            0,
            code.deep_view(),
            defs.deep_view(),
        );
    for i in 0..places.len()
        invariant
            types_valid(saved@),
            places_bound(
                places@,
                saved@,
                slots.deep_view(),
                class_name@,
                pointer.deep_view(),
                source.deep_view(),
                i as nat,
                code.deep_view(),
                defs.deep_view(),
            ) == start,
            start == places_bound(
                places@,
                saved@,
                slots.deep_view(),
                class_name@,
                pointer.deep_view(),
                source.deep_view(),
                0,
                old(code).deep_view(),
                old(defs).deep_view(),
            ),
    {
        let item = &places[i];
        match &get_slot(slots, item.index) {
            None => {

            },
            Some(slot) => {
                if is_saved_value(saved, item.index) && needs_nested_memory_binding(
                    &saved_value(saved, item.index),
                ) && Type::is_jvm_reference_type(&slot.ty) {
                    let _done = match emit_memory_binding(
                        &saved_value(saved, item.index),
                        slot,
                        item.offset,
                        class_name,
                        pointer,
                        source,
                        code,
                        defs,
                    ) {
                        Ok(value) => value,
                        Err(error) => return Err(error),
                    };

                } else {

                }
            },
        }
    }
    Ok(())
}

/// The blocks that bind the states from one on.
pub open spec fn states_bound(
    variants: Seq<CoroutineState>,
    saved: Seq<RustType>,
    slots: Seq<Option<SlotModel>>,
    class_name: Text,
    pointer: OperandModel,
    source: OperandModel,
    from: nat,
    code: CodeModel,
    defs: DefinitionsModel,
    blocks: Map<Text, BasicBlockModel>,
) -> (CodeModel, DefinitionsModel, Map<Text, BasicBlockModel>, Result<(), Text>)
    decreases saved, 1nat, variants.len() - from,
{
    if from >= variants.len() {
        (code, defs, blocks, Ok(()))
    } else {
        let item = variants[from as int];
        let (code, defs, outcome) = places_bound(
            item.places@,
            saved,
            slots,
            class_name,
            pointer,
            source,
            0,
            code,
            defs,
        );
        match outcome {
            Err(error) => (code, defs, blocks, Err(error)),
            Ok(_) => {
                let code = emit(code, returns_nothing());
                let (code, blocks) = flushed(variant_label((from as usize)), code, blocks);
                states_bound(
                    variants,
                    saved,
                    slots,
                    class_name,
                    pointer,
                    source,
                    from + 1,
                    code,
                    defs,
                    blocks,
                )
            },
        }
    }
}

/// Adds the blocks that bind the states.
pub fn emit_state_bindings(
    variants: &Vec<CoroutineState>,
    saved: &Vec<RustType>,
    slots: &Vec<Option<Slot>>,
    class_name: &str,
    pointer: &Operand,
    source: &Operand,
    code: &mut Code,
    defs: &mut Definitions,
    blocks: &mut NameMap<BasicBlock>,
) -> (r: Result<(), String>)
    requires
        types_valid(saved@),
    ensures
        (
            final(code).deep_view(),
            final(defs).deep_view(),
            final(blocks).deep_view(),
            unit_outcome(r),
        ) == states_bound(
            variants@,
            saved@,
            slots.deep_view(),
            class_name@,
            pointer.deep_view(),
            source.deep_view(),
            0,
            old(code).deep_view(),
            old(defs).deep_view(),
            old(blocks).deep_view(),
        ),
    decreases saved@, 1nat,
{
    let ghost start = states_bound(
            variants@,
            saved@,
            slots.deep_view(),
            class_name@,
            pointer.deep_view(),
            source.deep_view(),
            0,
            code.deep_view(),
            defs.deep_view(),
            blocks.deep_view(),
        );
    for i in 0..variants.len()
        invariant
            types_valid(saved@),
            states_bound(
                variants@,
                saved@,
                slots.deep_view(),
                class_name@,
                pointer.deep_view(),
                source.deep_view(),
                i as nat,
                code.deep_view(),
                defs.deep_view(),
                blocks.deep_view(),
            ) == start,
            start == states_bound(
                variants@,
                saved@,
                slots.deep_view(),
                class_name@,
                pointer.deep_view(),
                source.deep_view(),
                0,
                old(code).deep_view(),
                old(defs).deep_view(),
                old(blocks).deep_view(),
            ),
    {
        let item = &variants[i];
        let _done = match emit_place_bindings(
            &item.places,
            saved,
            slots,
            class_name,
            pointer,
            source,
            code,
            defs,
        ) {
            Ok(value) => value,
            Err(error) => return Err(error),
        };
        code.push(return_nothing());
        flush_block(variant_label_of(i).as_str(), code, blocks);
    }
    Ok(())
}

/// A function of a codec of coroutines.
pub open spec fn state_function(
    name: Text,
    signature: SignatureModel,
    blocks: Map<Text, BasicBlockModel>,
) -> FunctionModel {
    plain_function(name, signature, CodeBlockModel { entry: "entry"@, basic_blocks: blocks })
}

/// A function of a codec of coroutines.
pub fn coroutine_codec_function(
    name: &str,
    signature: Signature,
    blocks: NameMap<BasicBlock>,
) -> (r: Function)
    ensures
        r.deep_view() == state_function(name@, signature.deep_view(), blocks.deep_view()),
{
    make_function(
        name,
        signature,
        CodeBlock { entry: "entry".to_string(), basic_blocks: blocks },
    )
}

/// The methods of a codec of coroutines.
pub open spec fn coroutine_methods(
    ty: RustType,
    coroutine: Coroutine,
    size: usize,
    defs: DefinitionsModel,
    methods: Map<Text, DataTypeMethodModel>,
) -> (DefinitionsModel, Map<Text, DataTypeMethodModel>, Result<(), Text>)
    decreases coroutine, 8nat, 0nat,
{
    match coroutine.layout {
        Err(reason) => {
            (defs, methods, Err(reason@))
        },
        Ok(layout) => {
            match layout.state {
                None => {
                    (
                        defs,
                        methods,
                        Err(
                            ("coroutine "@ + ty.text@ + " does not have a direct state-tag layout"@),
                        ),
                    )
                },
                Some(place) => {
                    if !is_class(defs, coroutine.class_name@) {
                        (
                            defs,
                            methods,
                            Err(
                                ("coroutine carrier "@ + coroutine.class_name@ + " was not defined"@),
                            ),
                        )
                    } else {
                        let value_ty = lowered(ty);
                        let capture_slots = slots_of_fields(
                            SlotNames::Captures,
                            coroutine.class_name@,
                            coroutine.captures@,
                            defs,
                        );
                        let saved_slots = slots_of_saved(
                            coroutine.class_name@,
                            layout.saved@,
                            defs,
                        );
                        let capture_missing = undeclared_fields(
                            SlotNames::Captures,
                            coroutine.class_name@,
                            coroutine.captures@,
                            defs,
                        );
                        let saved_missing = undeclared_saved(
                            coroutine.class_name@,
                            layout.saved@,
                            defs,
                        );
                        let defs = undeclared_defined(
                            coroutine.captures@,
                            capture_missing,
                            0,
                            defs,
                        );
                        let defs = undeclared_saved_defined(layout.saved@, saved_missing, 0, defs);
                        let code = empty_code(0);
                        let (code, defs, outcome) = encoding_of(
                            coroutine,
                            place,
                            size,
                            capture_slots,
                            saved_slots,
                            value_ty,
                            code,
                            defs,
                        );
                        match outcome {
                            Err(error) => (defs, methods, Err(error)),
                            Ok(encode) => {
                                let methods = function_put("encode"@, encode, methods);
                                let (code, defs, outcome) = decoding_of(
                                    coroutine,
                                    place,
                                    size,
                                    capture_slots,
                                    saved_slots,
                                    value_ty,
                                    code,
                                    defs,
                                );
                                match outcome {
                                    Err(error) => (defs, methods, Err(error)),
                                    Ok(decode) => {
                                        let methods = function_put("decode"@, decode, methods);
                                        let (code, defs, outcome) = binding_of(
                                            coroutine,
                                            capture_slots,
                                            saved_slots,
                                            value_ty,
                                            code,
                                            defs,
                                        );
                                        match outcome {
                                            Err(error) => (defs, methods, Err(error)),
                                            Ok(bind) => {
                                                let methods = function_put("bind"@, bind, methods);
                                                (defs, methods, Ok(()))
                                            },
                                        }
                                    },
                                }
                            },
                        }
                    }
                },
            }
        },
    }
}

/// Makes the methods of a codec of coroutines.
#[verifier::rlimit(90)]
pub fn coroutine_pointer_codec_methods(
    ty: &RustType,
    coroutine: &Coroutine,
    size: usize,
    defs: &mut Definitions,
    methods: &mut NameMap<DataTypeMethod>,
) -> (r: Result<(), String>)
    requires
        coroutine_valid(*coroutine),
    ensures
        (final(defs).deep_view(), final(methods).deep_view(), unit_outcome(r)) == coroutine_methods(
            *ty,
            *coroutine,
            size,
            old(defs).deep_view(),
            old(methods).deep_view(),
        ),
    decreases coroutine, 8nat,
{
    match &coroutine.layout {
        Err(reason) => {
            Err(reason.clone())
        },
        Ok(layout) => {
            match &layout.state {
                None => {
                    Err(
                        cat3(
                            "coroutine ",
                            ty.text.as_str(),
                            " does not have a direct state-tag layout",
                        ),
                    )
                },
                Some(place) => {
                    if !is_class_name(defs, coroutine.class_name.as_str()) {
                        Err(
                            cat3(
                                "coroutine carrier ",
                                coroutine.class_name.as_str(),
                                " was not defined",
                            ),
                        )
                    } else {
                        let value_ty = RustType::jvm_type(ty);
                        let capture_slots = plan_slots(
                            SlotNames::Captures,
                            coroutine.class_name.as_str(),
                            &coroutine.captures,
                            defs,
                        );
                        let saved_slots = plan_saved_slots(
                            coroutine.class_name.as_str(),
                            &layout.saved,
                            defs,
                        );
                        let capture_missing = find_undeclared(
                            SlotNames::Captures,
                            coroutine.class_name.as_str(),
                            &coroutine.captures,
                            defs,
                        );
                        let saved_missing = find_undeclared_saved(
                            coroutine.class_name.as_str(),
                            &layout.saved,
                            defs,
                        );
                        define_undeclared(&coroutine.captures, &capture_missing, defs);
                        define_undeclared_saved(&layout.saved, &saved_missing, defs);
                        let mut code = Code::new(0);
                        let encode = match coroutine_encode(
                            coroutine,
                            place,
                            size,
                            &capture_slots,
                            &saved_slots,
                            &value_ty,
                            &mut code,
                            defs,
                        ) {
                            Ok(value) => value,
                            Err(error) => return Err(error),
                        };
                        put_function("encode", encode, methods);
                        let decode = match coroutine_decode(
                            coroutine,
                            place,
                            size,
                            &capture_slots,
                            &saved_slots,
                            &value_ty,
                            &mut code,
                            defs,
                        ) {
                            Ok(value) => value,
                            Err(error) => return Err(error),
                        };
                        put_function("decode", decode, methods);
                        let bind = match coroutine_bind(
                            coroutine,
                            &capture_slots,
                            &saved_slots,
                            &value_ty,
                            &mut code,
                            defs,
                        ) {
                            Ok(value) => value,
                            Err(error) => return Err(error),
                        };
                        put_function("bind", bind, methods);
                        Ok(())
                    }
                },
            }
        },
    }
}

/// The method that encodes a coroutine.
pub open spec fn encoding_of(
    coroutine: Coroutine,
    place: StatePlace,
    size: usize,
    capture_slots: Seq<Option<SlotModel>>,
    saved_slots: Seq<Option<SlotModel>>,
    value_ty: TypeModel,
    code: CodeModel,
    defs: DefinitionsModel,
) -> (CodeModel, DefinitionsModel, Result<FunctionModel, Text>)
    decreases coroutine, 7nat, 0nat,
{
    match coroutine.layout {
        Err(reason) => {
            (code, defs, Err(reason@))
        },
        Ok(layout) => {
            let blocks = no_blocks();
            let storage = storage_at_start("_bytes"@, "_objects"@);
            let code = emit(code, makes_array("_bytes"@, Type::I8, i32_value(small_number(size))));
            let code = emit(
                code,
                makes_array(
                    "_objects"@,
                    object_class(),
                    i32_value(small_number(at_least_one(size))),
                ),
            );
            let (code, defs, outcome) = stored_fields(
                coroutine.captures@,
                capture_slots,
                coroutine.class_name@,
                variable("_1"@, value_ty),
                storage,
                0,
                0,
                code,
                defs,
            );
            match outcome {
                Err(error) => (code, defs, Err(error)),
                Ok(_) => {
                    let code = emit(
                        code,
                        reads_field(
                            "_coroutine_state"@,
                            variable("_1"@, value_ty),
                            "__state"@,
                            Type::I32,
                            coroutine.class_name@,
                        ),
                    );
                    let code = stored_bits(
                        variable("_coroutine_state"@, Type::I32),
                        Type::I32,
                        place.size as nat,
                        storage,
                        place.offset,
                        code,
                    );
                    let (code, blocks) = state_switch(layout.variants@, code, blocks);
                    let (code, defs, blocks, outcome) = states_stored(
                        layout.variants@,
                        layout.saved@,
                        saved_slots,
                        coroutine.class_name@,
                        value_ty,
                        storage,
                        0,
                        code,
                        defs,
                        blocks,
                    );
                    match outcome {
                        Err(error) => (code, defs, Err(error)),
                        Ok(_) => {
                            (
                                code,
                                defs,
                                Ok(
                                    state_function(
                                        "encode"@,
                                        static_method(params1("value"@, value_ty), byte_array()),
                                        blocks,
                                    ),
                                ),
                            )
                        },
                    }
                },
            }
        },
    }
}

/// The method that encodes a coroutine.
#[verifier::rlimit(80)]
pub fn coroutine_encode(
    coroutine: &Coroutine,
    place: &StatePlace,
    size: usize,
    capture_slots: &Vec<Option<Slot>>,
    saved_slots: &Vec<Option<Slot>>,
    value_ty: &Type,
    code: &mut Code,
    defs: &mut Definitions,
) -> (r: Result<Function, String>)
    requires
        coroutine_valid(*coroutine),
    ensures
        (final(code).deep_view(), final(defs).deep_view(), outcome_model(r)) == encoding_of(
            *coroutine,
            *place,
            size,
            capture_slots.deep_view(),
            saved_slots.deep_view(),
            value_ty.deep_view(),
            old(code).deep_view(),
            old(defs).deep_view(),
        ),
    decreases coroutine, 7nat,
{
    match &coroutine.layout {
        Err(reason) => {
            Err(reason.clone())
        },
        Ok(layout) => {
            let mut blocks = empty_blocks();
            let storage = UnionStorage::at_start("_bytes", "_objects");
            code.push(array_new("_bytes", &Type::I8, &i32_operand(small_number_of(size))));
            code.push(
                array_new(
                    "_objects",
                    &object_type(),
                    &i32_operand(small_number_of(one_or_more(size))),
                ),
            );
            let _done = match emit_aggregate_to_union_bytes(
                &coroutine.captures,
                capture_slots,
                coroutine.class_name.as_str(),
                &operand_var("_1", value_ty),
                &storage,
                0,
                code,
                defs,
            ) {
                Ok(value) => value,
                Err(error) => return Err(error),
            };
            code.push(
                field_read(
                    "_coroutine_state",
                    &operand_var("_1", value_ty),
                    "__state",
                    &Type::I32,
                    coroutine.class_name.as_str(),
                ),
            );
            emit_bits_to_union_bytes(
                &operand_var("_coroutine_state", &Type::I32),
                &Type::I32,
                place.size,
                &storage,
                place.offset,
                code,
            );
            emit_state_switch(&layout.variants, code, &mut blocks);
            let _done = match emit_states_to(
                &layout.variants,
                &layout.saved,
                saved_slots,
                coroutine.class_name.as_str(),
                value_ty,
                &storage,
                code,
                defs,
                &mut blocks,
            ) {
                Ok(value) => value,
                Err(error) => return Err(error),
            };
            Ok(
                coroutine_codec_function(
                    "encode",
                    static_signature(&make_params1("value", value_ty), &byte_array_type()),
                    blocks,
                ),
            )
        },
    }
}

/// The method that decodes a coroutine.
pub open spec fn decoding_of(
    coroutine: Coroutine,
    place: StatePlace,
    size: usize,
    capture_slots: Seq<Option<SlotModel>>,
    saved_slots: Seq<Option<SlotModel>>,
    value_ty: TypeModel,
    code: CodeModel,
    defs: DefinitionsModel,
) -> (CodeModel, DefinitionsModel, Result<FunctionModel, Text>)
    decreases coroutine, 7nat, 0nat,
{
    match coroutine.layout {
        Err(reason) => {
            (code, defs, Err(reason@))
        },
        Ok(layout) => {
            let blocks = no_blocks();
            let storage = storage_at_start("_1"@, "_objects"@);
            let code = emit(
                code,
                makes_array(
                    "_objects"@,
                    object_class(),
                    i32_value(small_number(at_least_one(size))),
                ),
            );
            let (code, state) = loaded_bits(
                Type::I32,
                place.size as nat,
                storage,
                place.offset,
                code,
            );
            let code = emit(code, copies("_coroutine_state"@, state));
            let (code, blocks) = state_switch(layout.variants@, code, blocks);
            let (code, defs, blocks, outcome) = states_loaded(
                coroutine,
                layout.variants@,
                capture_slots,
                saved_slots,
                value_ty,
                storage,
                0,
                code,
                defs,
                blocks,
            );
            match outcome {
                Err(error) => (code, defs, Err(error)),
                Ok(_) => {
                    (
                        code,
                        defs,
                        Ok(
                            state_function(
                                "decode"@,
                                static_method(params1("bytes"@, byte_array()), value_ty),
                                blocks,
                            ),
                        ),
                    )
                },
            }
        },
    }
}

/// The method that decodes a coroutine.
#[verifier::rlimit(80)]
pub fn coroutine_decode(
    coroutine: &Coroutine,
    place: &StatePlace,
    size: usize,
    capture_slots: &Vec<Option<Slot>>,
    saved_slots: &Vec<Option<Slot>>,
    value_ty: &Type,
    code: &mut Code,
    defs: &mut Definitions,
) -> (r: Result<Function, String>)
    requires
        coroutine_valid(*coroutine),
    ensures
        (final(code).deep_view(), final(defs).deep_view(), outcome_model(r)) == decoding_of(
            *coroutine,
            *place,
            size,
            capture_slots.deep_view(),
            saved_slots.deep_view(),
            value_ty.deep_view(),
            old(code).deep_view(),
            old(defs).deep_view(),
        ),
    decreases coroutine, 7nat,
{
    match &coroutine.layout {
        Err(reason) => {
            Err(reason.clone())
        },
        Ok(layout) => {
            let mut blocks = empty_blocks();
            let storage = UnionStorage::at_start("_1", "_objects");
            code.push(
                array_new(
                    "_objects",
                    &object_type(),
                    &i32_operand(small_number_of(one_or_more(size))),
                ),
            );
            let state = emit_bits_from_union_bytes(
                &Type::I32,
                place.size,
                &storage,
                place.offset,
                code,
            );
            code.push(copy_value("_coroutine_state", &state));
            emit_state_switch(&layout.variants, code, &mut blocks);
            let _done = match emit_states_from(
                coroutine,
                &layout.variants,
                capture_slots,
                saved_slots,
                value_ty,
                &storage,
                code,
                defs,
                &mut blocks,
            ) {
                Ok(value) => value,
                Err(error) => return Err(error),
            };
            Ok(
                coroutine_codec_function(
                    "decode",
                    static_signature(&make_params1("bytes", &byte_array_type()), value_ty),
                    blocks,
                ),
            )
        },
    }
}

/// The method that tells a pointer where the parts of a coroutine stand.
pub open spec fn binding_of(
    coroutine: Coroutine,
    capture_slots: Seq<Option<SlotModel>>,
    saved_slots: Seq<Option<SlotModel>>,
    value_ty: TypeModel,
    code: CodeModel,
    defs: DefinitionsModel,
) -> (CodeModel, DefinitionsModel, Result<FunctionModel, Text>)
    decreases coroutine, 7nat, 0nat,
{
    match coroutine.layout {
        Err(reason) => {
            (code, defs, Err(reason@))
        },
        Ok(layout) => {
            let blocks = no_blocks();
            let pointer_ty = pointer_to(value_ty);
            let (code, defs, outcome) = memory_bindings(
                coroutine.captures@,
                capture_slots,
                coroutine.class_name@,
                variable("_1"@, pointer_ty),
                variable("_2"@, value_ty),
                0,
                code,
                defs,
            );
            match outcome {
                Err(error) => (code, defs, Err(error)),
                Ok(_) => {
                    let code = emit(
                        code,
                        reads_field(
                            "_coroutine_state"@,
                            variable("_2"@, value_ty),
                            "__state"@,
                            Type::I32,
                            coroutine.class_name@,
                        ),
                    );
                    let (code, blocks) = state_switch(layout.variants@, code, blocks);
                    let (code, defs, blocks, outcome) = states_bound(
                        layout.variants@,
                        layout.saved@,
                        saved_slots,
                        coroutine.class_name@,
                        variable("_1"@, pointer_ty),
                        variable("_2"@, value_ty),
                        0,
                        code,
                        defs,
                        blocks,
                    );
                    match outcome {
                        Err(error) => (code, defs, Err(error)),
                        Ok(_) => {
                            (
                                code,
                                defs,
                                Ok(
                                    state_function(
                                        "bind"@,
                                        static_method(
                                            params2("pointer"@, pointer_ty, "value"@, value_ty),
                                            Type::Void,
                                        ),
                                        blocks,
                                    ),
                                ),
                            )
                        },
                    }
                },
            }
        },
    }
}

/// The method that tells a pointer where the parts of a coroutine stand.
#[verifier::rlimit(80)]
pub fn coroutine_bind(
    coroutine: &Coroutine,
    capture_slots: &Vec<Option<Slot>>,
    saved_slots: &Vec<Option<Slot>>,
    value_ty: &Type,
    code: &mut Code,
    defs: &mut Definitions,
) -> (r: Result<Function, String>)
    requires
        coroutine_valid(*coroutine),
    ensures
        (final(code).deep_view(), final(defs).deep_view(), outcome_model(r)) == binding_of(
            *coroutine,
            capture_slots.deep_view(),
            saved_slots.deep_view(),
            value_ty.deep_view(),
            old(code).deep_view(),
            old(defs).deep_view(),
        ),
    decreases coroutine, 7nat,
{
    match &coroutine.layout {
        Err(reason) => {
            Err(reason.clone())
        },
        Ok(layout) => {
            let mut blocks = empty_blocks();
            let pointer_ty = pointer_type(value_ty);
            let _done = match emit_aggregate_memory_bindings(
                &coroutine.captures,
                capture_slots,
                coroutine.class_name.as_str(),
                &operand_var("_1", &pointer_ty),
                &operand_var("_2", value_ty),
                code,
                defs,
            ) {
                Ok(value) => value,
                Err(error) => return Err(error),
            };
            code.push(
                field_read(
                    "_coroutine_state",
                    &operand_var("_2", value_ty),
                    "__state",
                    &Type::I32,
                    coroutine.class_name.as_str(),
                ),
            );
            emit_state_switch(&layout.variants, code, &mut blocks);
            let _done = match emit_state_bindings(
                &layout.variants,
                &layout.saved,
                saved_slots,
                coroutine.class_name.as_str(),
                &operand_var("_1", &pointer_ty),
                &operand_var("_2", value_ty),
                code,
                defs,
                &mut blocks,
            ) {
                Ok(value) => value,
                Err(error) => return Err(error),
            };
            Ok(
                coroutine_codec_function(
                    "bind",
                    static_signature(
                        &make_params2("pointer", &pointer_ty, "value", value_ty),
                        &Type::Void,
                    ),
                    blocks,
                ),
            )
        },
    }
}

/// The class that encodes and decodes a coroutine, and the definitions with it.
pub open spec fn coroutine_codec(
    ty: RustType,
    coroutine: Coroutine,
    defs: DefinitionsModel,
) -> (DefinitionsModel, Result<Text, Text>)
    decreases coroutine, 9nat, 0nat,
{
    match exact_bytes(ty) {
        Err(error) => (defs, Err(error)),
        Ok(exact) => {
            match size_of(ty) {
                Err(error) => (defs, Err(error)),
                Ok(size) => {
                    let defs = coroutine_defined(coroutine, defs);
                    if codec_ready(defs, ty.codec_class@) {
                        (defs, Ok(ty.codec_class@))
                    } else if is_interface(defs, ty.codec_class@) {
                        (
                            defs,
                            Err(
                                ("pointer codec helper name "@ + ty.codec_class@ + " is already an interface"@),
                            ),
                        )
                    } else {
                        let defs = codec_started(ty.codec_class@, defs);
                        let methods = no_methods();
                        let (defs, methods, made) = coroutine_methods(
                            ty,
                            coroutine,
                            size,
                            defs,
                            methods,
                        );
                        match made {
                            Err(error) => {
                                let defs = undefined(ty.codec_class@, defs);
                                (defs, Err(error))
                            },
                            Ok(_) => {
                                let defs = all_added(ty.codec_class@, methods, defs);
                                (defs, Ok(ty.codec_class@))
                            },
                        }
                    }
                },
            }
        },
    }
}

/// Makes sure that the class that encodes and decodes a coroutine is defined.
pub fn ensure_coroutine_codec(
    ty: &RustType,
    coroutine: &Coroutine,
    defs: &mut Definitions,
) -> (r: Result<String, String>)
    requires
        coroutine_valid(*coroutine),
    ensures
        (
            final(defs).deep_view(),
            outcome_model(r),
        ) == coroutine_codec(*ty, *coroutine, old(defs).deep_view()),
    decreases coroutine, 9nat,
{
    let exact = match exact_bytes_supported(ty) {
        Ok(value) => value,
        Err(error) => return Err(error),
    };
    let size = match layout_size_bytes(ty) {
        Ok(value) => value,
        Err(error) => return Err(error),
    };
    define_coroutine(coroutine, defs);
    if is_codec_ready(defs, ty.codec_class.as_str()) {
        Ok(ty.codec_class.clone())
    } else if is_interface_name(defs, ty.codec_class.as_str()) {
        Err(cat3("pointer codec helper name ", ty.codec_class.as_str(), " is already an interface"))
    } else {
        start_codec(ty.codec_class.as_str(), defs);
        let mut methods = empty_methods();
        let made = coroutine_pointer_codec_methods(ty, coroutine, size, defs, &mut methods);
        match made {
            Err(error) => {
                undefine(ty.codec_class.as_str(), defs);
                Err(error)
            },
            Ok(_) => {
                add_all(ty.codec_class.as_str(), methods, defs);
                Ok(ty.codec_class.clone())
            },
        }
    }
}

} // verus!
