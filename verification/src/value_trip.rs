//! Values that are built of numbers come back from the bytes of a union.
use crate::code::{
    CodeModel, DefinitionsModel, class, emit, fresh, makes_object, reads_field, typed0,
    value_appended, variable,
};
use crate::execution::{
    Machine, Value, classes_are_kept, executed, field_value, full_value, is_numeric, is_settled,
    kept, kept_by_both, kept_by_nothing, one_more_step, settled_for_longer, stepped,
    taken_is_settled, value_assigned, value_assignment_keeps, value_is_kept,
};
use crate::layout::{SlotModel, SlotNames, slot_at, slots_of_fields, valued_before};
use crate::load::{loaded, loaded_adt, loaded_aggregate, loaded_fields, loaded_thin};
use crate::oomir::{OperandModel, Text, TypeModel, has_value, operand_type};
use crate::pointer_codec::fat_codec;
use crate::round_trip::{goes_on, has_room};
use crate::rust_type::{Field, RustType, TypeKind, is_dynamic, lowered};
use crate::scalar_trip::{is_plain_number, number_is_loaded, number_is_stored};
use crate::store::{stored, stored_adt, stored_field, stored_fields, stored_thin};
use crate::union_storage::{UnionStorageModel, offset_sum};
use crate::value_bytes::{
    bytes_of, fits, has_plain_parts, image, image_from, image_is_local, image_shows_the_value,
    is_plain, is_valued, parts_fit, parts_show, rank_grows, shows,
};
use vstd::prelude::*;
use vstd::string::*;

verus! {

/// How many temporaries the code that stores or loads a value takes at most.
pub open spec fn temps_needed(ty: RustType) -> nat
    decreases ty, 1nat, 0nat,
{
    if is_plain_number(ty) {
        50
    } else {
        match ty.kind {
            TypeKind::Tuple { class_name, elements } => 1 + temps_needed_from(elements@, 0),
            TypeKind::Closure { class_name, captures, .. } => 1 + temps_needed_from(captures@, 0),
            TypeKind::Adt(adt) => if adt.variants@.len() > 0 {
                1 + temps_needed_from(adt.variants@[0].fields@, 0)
            } else {
                0
            },
            _ => 0,
        }
    }
}

/// How many temporaries the code for the parts of an aggregate takes at most, from one on.
pub open spec fn temps_needed_from(fields: Seq<Field>, from: nat) -> nat
    decreases fields, 0nat, fields.len() - from,
{
    if from >= fields.len() {
        0
    } else {
        1 + temps_needed(fields[from as int].ty) + temps_needed_from(fields, from + 1)
    }
}

/// What a plain type is, whatever it is: a number, or an aggregate with these parts.
pub proof fn plain_type_is_known(
    ty: RustType,
    value: Value,
    defs: DefinitionsModel,
    classes: Map<Text, Seq<Text>>,
)
    requires
        is_plain(ty, defs, classes),
        fits(ty, value),
    ensures
        is_plain_number(ty) ==> is_numeric(lowered(ty)) && value is Number,
        !is_plain_number(ty) ==> !is_numeric(lowered(ty)) && lowered(ty) is Class
            && value is Object,
        !is_dynamic(ty),
        has_value(lowered(ty)),
{
    reveal_with_fuel(lowered, 2);
}

/// A field of an object holds the part that stands at its place.
pub proof fn field_holds_its_part(
    slots: Seq<Option<SlotModel>>,
    class_name: Text,
    fields: Seq<Field>,
    size: usize,
    value: Value,
    index: nat,
    m: Machine,
    defs: DefinitionsModel,
)
    requires
        has_plain_parts(slots, class_name, fields, size, defs, m.classes),
        parts_fit(class_name, fields, value),
        index < fields.len(),
        is_valued(fields[index as int]),
    ensures
        slots[index as int] is Some,
        field_value(m, value, slots[index as int]->0.name) == Some(
            value->parts[valued_before(fields, index) as int],
        ),
        valued_before(fields, index) < value->parts.len(),
{
    let list = m.classes[class_name];
    let name = slots[index as int]->0.name;
    rank_grows(fields, index, fields.len());
    let rank = valued_before(fields, index) as int;
    assert(list[rank] == name);
    assert(list.contains(name));
    let k = list.index_of(name);
    assert(0 <= k < list.len() && list[k] == name);
    assert(k == rank);
}

/// The code that stores a value puts its bytes into the array and leaves everything else as it was.
pub proof fn value_is_stored(
    ty: RustType,
    value: Value,
    source: OperandModel,
    storage: UnionStorageModel,
    base_offset: usize,
    code: CodeModel,
    defs: DefinitionsModel,
    from: nat,
    first: Machine,
    m: Machine,
    start: u64,
) -> (n: Machine)
    requires
        from <= code.instructions.len(),
        executed(first, code.instructions, from) == Some(m),
        is_plain(ty, defs, m.classes),
        fits(ty, value),
        operand_type(source) == lowered(ty),
        is_settled(source, code.temps),
        full_value(m, source) == Some(value),
        has_room(m, storage, code.temps, start, base_offset + bytes_of(ty)),
        code.temps + temps_needed(ty) <= usize::MAX,
    ensures
        ({
            let (after, defs1, outcome) = stored(ty, source, storage, base_offset, code, defs);
            let bytes = m.arrays[storage.bytes_var];
            &&& outcome is Ok
            &&& defs1 == defs
            &&& executed(first, after.instructions, from) == Some(n)
            &&& n.arrays == m.arrays.insert(
                storage.bytes_var,
                image(ty, value, bytes, start + base_offset),
            )
            &&& kept(m, n, code.temps)
            &&& goes_on(code, after, temps_needed(ty) as int)
        }),
    decreases ty, 1nat, 0nat,
{
    plain_type_is_known(ty, value, defs, m.classes);
    if is_plain_number(ty) {
        number_is_stored(
            ty,
            source,
            storage,
            base_offset,
            code,
            defs,
            from,
            first,
            m,
            start,
            value->bits,
        )
    } else {
        reveal_with_fuel(lowered, 2);
        let size = bytes_of(ty);
        let thin = stored_thin(ty, size, source, storage, base_offset, code, defs);
        assert(fat_codec(ty, defs) == (defs, None::<Text>));
        assert(stored(ty, source, storage, base_offset, code, defs) == thin);
        match ty.kind {
            TypeKind::Tuple { class_name, elements } => parts_are_stored(
                slots_of_fields(SlotNames::Elements, class_name@, elements@, defs),
                class_name@,
                elements@,
                bytes_of(ty),
                value,
                0,
                source,
                storage,
                base_offset,
                code,
                defs,
                from,
                first,
                m,
                start,
            ),
            TypeKind::Closure { class_name, captures, .. } => parts_are_stored(
                slots_of_fields(SlotNames::Captures, class_name@, captures@, defs),
                class_name@,
                captures@,
                bytes_of(ty),
                value,
                0,
                source,
                storage,
                base_offset,
                code,
                defs,
                from,
                first,
                m,
                start,
            ),
            TypeKind::Adt(adt) => {
                assert(thin == stored_adt(ty, adt, size, source, storage, base_offset, code, defs));
                parts_are_stored(
                    slots_of_fields(
                        SlotNames::Declared,
                        adt.class_name@,
                        adt.variants@[0].fields@,
                        defs,
                    ),
                    adt.class_name@,
                    adt.variants@[0].fields@,
                    size,
                    value,
                    0,
                    source,
                    storage,
                    base_offset,
                    code,
                    defs,
                    from,
                    first,
                    m,
                    start,
                )
            },
            _ => m,
        }
    }
}

/// The code that stores the parts of an object, from one on, puts their bytes into the array.
pub proof fn parts_are_stored(
    slots: Seq<Option<SlotModel>>,
    class_name: Text,
    fields: Seq<Field>,
    size: usize,
    value: Value,
    index: nat,
    source: OperandModel,
    storage: UnionStorageModel,
    base_offset: usize,
    code: CodeModel,
    defs: DefinitionsModel,
    from: nat,
    first: Machine,
    m: Machine,
    start: u64,
) -> (n: Machine)
    requires
        from <= code.instructions.len(),
        executed(first, code.instructions, from) == Some(m),
        has_plain_parts(slots, class_name, fields, size, defs, m.classes),
        parts_fit(class_name, fields, value),
        is_settled(source, code.temps),
        full_value(m, source) == Some(value),
        has_room(m, storage, code.temps, start, base_offset + size),
        code.temps + temps_needed_from(fields, index) <= usize::MAX,
    ensures
        ({
            let (after, defs1, outcome) = stored_fields(
                fields,
                slots,
                class_name,
                source,
                storage,
                base_offset,
                index,
                code,
                defs,
            );
            let bytes = m.arrays[storage.bytes_var];
            &&& outcome is Ok
            &&& defs1 == defs
            &&& executed(first, after.instructions, from) == Some(n)
            &&& n.arrays == m.arrays.insert(
                storage.bytes_var,
                image_from(fields, value->parts, index, bytes, start + base_offset),
            )
            &&& kept(m, n, code.temps)
            &&& goes_on(code, after, temps_needed_from(fields, index) as int)
        }),
    decreases fields, 0nat, fields.len() - index,
{
    let bytes = m.arrays[storage.bytes_var];
    let at = start + base_offset;
    if index >= fields.len() {
        kept_by_nothing(m, m, code.temps);
        assert(m.arrays.insert(storage.bytes_var, bytes) =~= m.arrays);
        m
    } else {
        let item = fields[index as int];
        assert(slot_at(slots, index as usize) == slots[index as int]);
        if !is_valued(item) {
            parts_are_stored(
                slots,
                class_name,
                fields,
                size,
                value,
                index + 1,
                source,
                storage,
                base_offset,
                code,
                defs,
                from,
                first,
                m,
                start,
            )
        } else {
            reveal_strlit("union_aggregate_field");
            let part = value->parts[valued_before(fields, index) as int];
            let name = slots[index as int]->0.name;
            let slot_ty = lowered(item.ty);
            field_holds_its_part(slots, class_name, fields, size, value, index, m, defs);
            plain_type_is_known(item.ty, part, defs, m.classes);
            let (taken, dest) = fresh(code, "union_aggregate_field"@);
            let instruction = reads_field(dest, source, name, slot_ty, class_name);
            let code1 = emit(taken, instruction);
            let m1 = value_assigned(m, dest, part);
            one_more_step(first, taken, from, instruction);
            assert(executed(first, code1.instructions, from) == Some(m1));
            value_assignment_keeps(m, "union_aggregate_field"@, code.temps, part);
            taken_is_settled("union_aggregate_field"@, code.temps, code1.temps);
            let operand = variable(dest, slot_ty);
            assert(full_value(m1, operand) == Some(part));
            classes_are_kept(m, m1, code.temps);
            value_is_kept(m, m1, code.temps, storage.base_offset);
            settled_for_longer(storage.base_offset, code.temps, code1.temps);
            let offset = offset_sum(base_offset, item.offset);
            let slot = SlotModel { name, ty: slot_ty };
            let one = stored_field(
                item,
                slot,
                class_name,
                source,
                storage,
                base_offset,
                code,
                defs,
            );
            assert(one == stored(item.ty, operand, storage, offset, code1, defs));
            let code2 = one.0;
            let m2 = value_is_stored(
                item.ty,
                part,
                operand,
                storage,
                offset,
                code1,
                defs,
                from,
                first,
                m1,
                start,
            );
            kept_by_both(m, m1, m2, code.temps, code1.temps);
            classes_are_kept(m, m2, code.temps);
            value_is_kept(m, m2, code.temps, storage.base_offset);
            settled_for_longer(storage.base_offset, code.temps, code2.temps);
            value_is_kept(m, m2, code.temps, source);
            settled_for_longer(source, code.temps, code2.temps);
            image_is_local(item.ty, part, bytes, at + item.offset, defs, m.classes);
            let n = parts_are_stored(
                slots,
                class_name,
                fields,
                size,
                value,
                index + 1,
                source,
                storage,
                base_offset,
                code2,
                defs,
                from,
                first,
                m2,
                start,
            );
            kept_by_both(m, m2, n, code.temps, code2.temps);
            assert(stored_fields(
                fields,
                slots,
                class_name,
                source,
                storage,
                base_offset,
                index,
                code,
                defs,
            ) == stored_fields(
                fields,
                slots,
                class_name,
                source,
                storage,
                base_offset,
                index + 1,
                code2,
                defs,
            ));
            assert(n.arrays =~= m.arrays.insert(
                storage.bytes_var,
                image_from(fields, value->parts, index, bytes, at),
            ));
            n
        }
    }
}

/// The code that loads a value from bytes that show it gives the value, and leaves all arrays and
/// everything but its own temporaries as they were.
pub proof fn value_is_loaded(
    ty: RustType,
    value: Value,
    storage: UnionStorageModel,
    base_offset: usize,
    code: CodeModel,
    defs: DefinitionsModel,
    from: nat,
    first: Machine,
    m: Machine,
    start: u64,
) -> (n: Machine)
    requires
        from <= code.instructions.len(),
        executed(first, code.instructions, from) == Some(m),
        is_plain(ty, defs, m.classes),
        fits(ty, value),
        has_room(m, storage, code.temps, start, base_offset + bytes_of(ty)),
        shows(ty, value, m.arrays[storage.bytes_var], start + base_offset),
        code.temps + temps_needed(ty) <= usize::MAX,
    ensures
        ({
            let (after, defs1, outcome) = loaded(ty, storage, base_offset, code, defs);
            &&& outcome matches Ok(result)
            &&& defs1 == defs
            &&& executed(first, after.instructions, from) == Some(n)
            &&& n.arrays == m.arrays
            &&& kept(m, n, code.temps)
            &&& goes_on(code, after, temps_needed(ty) as int)
            &&& full_value(n, result) == Some(value)
            &&& operand_type(result) == lowered(ty)
            &&& is_settled(result, after.temps)
        }),
    decreases ty, 1nat, 0nat,
{
    plain_type_is_known(ty, value, defs, m.classes);
    if is_plain_number(ty) {
        number_is_loaded(
            ty,
            storage,
            base_offset,
            code,
            defs,
            from,
            first,
            m,
            start,
            value->bits,
        )
    } else {
        reveal_with_fuel(lowered, 2);
        let size = bytes_of(ty);
        let thin = loaded_thin(ty, size, storage, base_offset, code, defs);
        assert(fat_codec(ty, defs) == (defs, None::<Text>));
        assert(loaded(ty, storage, base_offset, code, defs) == thin);
        match ty.kind {
            TypeKind::Tuple { class_name, elements } => aggregate_is_loaded(
                slots_of_fields(SlotNames::Elements, class_name@, elements@, defs),
                class_name@,
                elements@,
                size,
                value,
                storage,
                base_offset,
                code,
                defs,
                from,
                first,
                m,
                start,
            ),
            TypeKind::Closure { class_name, captures, .. } => aggregate_is_loaded(
                slots_of_fields(SlotNames::Captures, class_name@, captures@, defs),
                class_name@,
                captures@,
                size,
                value,
                storage,
                base_offset,
                code,
                defs,
                from,
                first,
                m,
                start,
            ),
            TypeKind::Adt(adt) => {
                assert(thin == loaded_adt(ty, adt, size, storage, base_offset, code, defs));
                aggregate_is_loaded(
                    slots_of_fields(
                        SlotNames::Declared,
                        adt.class_name@,
                        adt.variants@[0].fields@,
                        defs,
                    ),
                    adt.class_name@,
                    adt.variants@[0].fields@,
                    size,
                    value,
                    storage,
                    base_offset,
                    code,
                    defs,
                    from,
                    first,
                    m,
                    start,
                )
            },
            _ => m,
        }
    }
}

/// Whether constructor arguments hold the first parts of a value.
pub open spec fn hold_parts(
    m: Machine,
    values: Seq<(OperandModel, TypeModel)>,
    parts: Seq<Value>,
    temps: usize,
) -> bool {
    &&& values.len() <= parts.len()
    &&& forall|k: int|
        0 <= k < values.len() ==> full_value(m, #[trigger] values[k].0) == Some(parts[k])
            && is_settled(values[k].0, temps)
}

/// Values that are held stay held.
pub proof fn parts_are_still_held(
    m: Machine,
    n: Machine,
    values: Seq<(OperandModel, TypeModel)>,
    parts: Seq<Value>,
    first: usize,
    second: usize,
)
    requires
        hold_parts(m, values, parts, first),
        kept(m, n, first),
        first <= second,
    ensures
        hold_parts(n, values, parts, second),
{
    assert forall|k: int| 0 <= k < values.len() implies full_value(n, #[trigger] values[k].0)
        == Some(parts[k]) && is_settled(values[k].0, second) by {
        value_is_kept(m, n, first, values[k].0);
        settled_for_longer(values[k].0, first, second);
    }
}

/// The code that loads an aggregate from bytes that show its parts gives an object with these
/// parts.
pub proof fn aggregate_is_loaded(
    slots: Seq<Option<SlotModel>>,
    class_name: Text,
    fields: Seq<Field>,
    size: usize,
    value: Value,
    storage: UnionStorageModel,
    base_offset: usize,
    code: CodeModel,
    defs: DefinitionsModel,
    from: nat,
    first: Machine,
    m: Machine,
    start: u64,
) -> (n: Machine)
    requires
        from <= code.instructions.len(),
        executed(first, code.instructions, from) == Some(m),
        has_plain_parts(slots, class_name, fields, size, defs, m.classes),
        parts_fit(class_name, fields, value),
        has_room(m, storage, code.temps, start, base_offset + size),
        parts_show(fields, value->parts, m.arrays[storage.bytes_var], start + base_offset),
        code.temps + 1 + temps_needed_from(fields, 0) <= usize::MAX,
    ensures
        ({
            let (after, defs1, outcome) = loaded_aggregate(
                fields,
                slots,
                class_name,
                storage,
                base_offset,
                code,
                defs,
            );
            &&& outcome matches Ok(result)
            &&& defs1 == defs
            &&& executed(first, after.instructions, from) == Some(n)
            &&& n.arrays == m.arrays
            &&& kept(m, n, code.temps)
            &&& goes_on(code, after, 1 + temps_needed_from(fields, 0) as int)
            &&& full_value(n, result) == Some(value)
            &&& operand_type(result) == class(class_name)
            &&& is_settled(result, after.temps)
        }),
    decreases fields, 1nat, 0nat,
{
    reveal_strlit("union_aggregate_value");
    let parts = value->parts;
    let loaded_parts = loaded_fields(fields, slots, storage, base_offset, 0, code, defs, typed0());
    let m1 = parts_are_loaded(
        slots,
        class_name,
        fields,
        size,
        value,
        0,
        storage,
        base_offset,
        code,
        defs,
        typed0(),
        from,
        first,
        m,
        start,
    );
    let code1 = loaded_parts.0;
    let values = loaded_parts.2;
    let (taken, dest) = fresh(code1, "union_aggregate_value"@);
    let instruction = makes_object(dest, class_name, values);
    one_more_step(first, taken, from, instruction);
    let made = Seq::new(values.len(), |i: int| full_value(m1, values[i].0)->0);
    assert(made =~= parts);
    let n = value_assigned(m1, dest, value);
    assert(stepped(m1, instruction) == Some(n));
    value_assignment_keeps(m1, "union_aggregate_value"@, code1.temps, value);
    kept_by_both(m, m1, n, code.temps, code1.temps);
    taken_is_settled("union_aggregate_value"@, code1.temps, taken.temps);
    n
}

proof fn parts_are_loaded(
    slots: Seq<Option<SlotModel>>,
    class_name: Text,
    fields: Seq<Field>,
    size: usize,
    value: Value,
    index: nat,
    storage: UnionStorageModel,
    base_offset: usize,
    code: CodeModel,
    defs: DefinitionsModel,
    values: Seq<(OperandModel, TypeModel)>,
    from: nat,
    first: Machine,
    m: Machine,
    start: u64,
) -> (n: Machine)
    requires
        from <= code.instructions.len(),
        executed(first, code.instructions, from) == Some(m),
        has_plain_parts(slots, class_name, fields, size, defs, m.classes),
        parts_fit(class_name, fields, value),
        index <= fields.len(),
        has_room(m, storage, code.temps, start, base_offset + size),
        parts_show(fields, value->parts, m.arrays[storage.bytes_var], start + base_offset),
        values.len() == valued_before(fields, index),
        hold_parts(m, values, value->parts, code.temps),
        code.temps + temps_needed_from(fields, index) <= usize::MAX,
    ensures
        ({
            let (after, defs1, all, outcome) = loaded_fields(
                fields,
                slots,
                storage,
                base_offset,
                index,
                code,
                defs,
                values,
            );
            &&& outcome is Ok
            &&& defs1 == defs
            &&& executed(first, after.instructions, from) == Some(n)
            &&& n.arrays == m.arrays
            &&& kept(m, n, code.temps)
            &&& goes_on(code, after, temps_needed_from(fields, index) as int)
            &&& all.len() == value->parts.len()
            &&& hold_parts(n, all, value->parts, after.temps)
        }),
    decreases fields, 0nat, fields.len() - index,
{
    let bytes = m.arrays[storage.bytes_var];
    let at = start + base_offset;
    if index >= fields.len() {
        kept_by_nothing(m, m, code.temps);
        m
    } else {
        let item = fields[index as int];
        assert(slot_at(slots, index as usize) == slots[index as int]);
        if !is_valued(item) {
            parts_are_loaded(
                slots,
                class_name,
                fields,
                size,
                value,
                index + 1,
                storage,
                base_offset,
                code,
                defs,
                values,
                from,
                first,
                m,
                start,
            )
        } else {
            let part = value->parts[valued_before(fields, index) as int];
            let slot_ty = lowered(item.ty);
            field_holds_its_part(slots, class_name, fields, size, value, index, m, defs);
            plain_type_is_known(item.ty, part, defs, m.classes);
            let offset = offset_sum(base_offset, item.offset);
            let one = loaded(item.ty, storage, offset, code, defs);
            let m1 = value_is_loaded(
                item.ty,
                part,
                storage,
                offset,
                code,
                defs,
                from,
                first,
                m,
                start,
            );
            let code1 = one.0;
            let result = one.2->Ok_0;
            let more = value_appended(result, slot_ty, values);
            classes_are_kept(m, m1, code.temps);
            value_is_kept(m, m1, code.temps, storage.base_offset);
            settled_for_longer(storage.base_offset, code.temps, code1.temps);
            parts_are_still_held(m, m1, values, value->parts, code.temps, code1.temps);
            assert(hold_parts(m1, more, value->parts, code1.temps)) by {
                assert forall|k: int| 0 <= k < more.len() implies full_value(
                    m1,
                    #[trigger] more[k].0,
                ) == Some(value->parts[k]) && is_settled(more[k].0, code1.temps) by {
                    if k < values.len() {
                        assert(more[k] == values[k]);
                    }
                }
            }
            let n = parts_are_loaded(
                slots,
                class_name,
                fields,
                size,
                value,
                index + 1,
                storage,
                base_offset,
                code1,
                defs,
                more,
                from,
                first,
                m1,
                start,
            );
            kept_by_both(m, m1, n, code.temps, code1.temps);
            assert(loaded_fields(
                fields,
                slots,
                storage,
                base_offset,
                index,
                code,
                defs,
                values,
            ) == loaded_fields(
                fields,
                slots,
                storage,
                base_offset,
                index + 1,
                code1,
                defs,
                more,
            ));
            n
        }
    }
}

/// What is stored in the bytes of a union and loaded from them as the same type is the value that
/// was stored: numbers, and tuples, closures and structs that are built of them.
pub proof fn stored_value_is_loaded(
    ty: RustType,
    value: Value,
    source: OperandModel,
    storage: UnionStorageModel,
    base_offset: usize,
    code: CodeModel,
    defs: DefinitionsModel,
    from: nat,
    first: Machine,
    m: Machine,
    start: u64,
) -> (n: Machine)
    requires
        from <= code.instructions.len(),
        executed(first, code.instructions, from) == Some(m),
        is_plain(ty, defs, m.classes),
        fits(ty, value),
        operand_type(source) == lowered(ty),
        is_settled(source, code.temps),
        full_value(m, source) == Some(value),
        has_room(m, storage, code.temps, start, base_offset + bytes_of(ty)),
        code.temps + 2 * temps_needed(ty) <= usize::MAX,
    ensures
        ({
            let (between, defs1, stored_outcome) = stored(
                ty,
                source,
                storage,
                base_offset,
                code,
                defs,
            );
            let (after, defs2, outcome) = loaded(ty, storage, base_offset, between, defs1);
            &&& stored_outcome is Ok
            &&& outcome matches Ok(result)
            &&& defs2 == defs
            &&& executed(first, after.instructions, from) == Some(n)
            &&& kept(m, n, code.temps)
            &&& full_value(n, result) == Some(value)
            &&& operand_type(result) == lowered(ty)
        }),
{
    let (between, _, _) = stored(ty, source, storage, base_offset, code, defs);
    let m1 = value_is_stored(
        ty,
        value,
        source,
        storage,
        base_offset,
        code,
        defs,
        from,
        first,
        m,
        start,
    );
    let bytes = m.arrays[storage.bytes_var];
    image_shows_the_value(ty, value, bytes, start + base_offset, defs, m.classes);
    classes_are_kept(m, m1, code.temps);
    value_is_kept(m, m1, code.temps, storage.base_offset);
    settled_for_longer(storage.base_offset, code.temps, between.temps);
    let n = value_is_loaded(
        ty,
        value,
        storage,
        base_offset,
        between,
        defs,
        from,
        first,
        m1,
        start,
    );
    kept_by_both(m, m1, n, code.temps, between.temps);
    n
}

} // verus!
