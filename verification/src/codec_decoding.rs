//! What a codec decodes, part by part through its helper methods.
use crate::code::{
    CodeModel, DefinitionsModel, args2, byte_array, calls_static, emit, empty_code, fresh,
    function_put, makes_object, object_array, params2, plain_function, returns_value,
    single_block, static_method, typed0, value_appended, variable,
};
use crate::codec::{default_value, is_laid_out_struct, part_path, slot_rank};
use crate::codec_encoding::{
    calls_needed, calls_needed_from, is_split_type, parameters_are_named_by_number,
};
use crate::execution::{
    Machine, Value, classes_are_kept, full_value, is_bit_conversion, is_settled, kept,
    kept_by_both, kept_by_nothing, stepped, taken_is_settled, value_assigned,
    value_assignment_keeps,
};
use crate::helper_calls::{
    Methods, are_there, entered, helper_is_under, helper_name, helpers_are_no_conversions,
    is_apart, is_byte_array, is_under, left, method_list, nested_is_under, parts_are_named_apart,
    run, run_goes_on, run_one_more, run_step, slot_rank_grows,
};
use crate::layout::{SlotModel, SlotNames, is_split, slot_at, slots_of_fields, valued_before};
use crate::load::loaded;
use crate::lowering::{closure_parts_defined, defined_fields, struct_parts_defined};
use crate::oomir::{
    DataTypeMethodModel, Function, InstructionModel, OperandModel, SignatureModel, Text,
    TypeModel,
};
use crate::pointer_codec::{split_aggregate_loaded, split_loaded, split_ty_loaded};
use crate::round_trip::goes_on;
use crate::rust_type::{Field, RustType, TypeKind, is_dynamic, lowered};
use crate::union_storage::{UnionStorageModel, offset_sum, storage_at_start};
use crate::value_bytes::{
    bytes_of, fits, has_plain_parts, is_plain, is_valued, parts_fit, parts_show, shows,
};
use crate::value_trip::{
    field_holds_its_part, hold_parts, parts_are_still_held, plain_type_is_known, temps_needed,
    temps_needed_from, value_is_loaded,
};
use vstd::prelude::*;
use vstd::string::*;

verus! {

/// Loading parts adds no methods but their helpers.
pub proof fn loading_adds_helpers_only(
    fields: Seq<Field>,
    slots: Seq<Option<SlotModel>>,
    storage: UnionStorageModel,
    base_offset: usize,
    path: Text,
    codec_class: Text,
    from: nat,
    code: CodeModel,
    defs: DefinitionsModel,
    methods: Methods,
    values: Seq<(OperandModel, TypeModel)>,
    name: Text,
)
    requires
        slots.len() == fields.len() <= usize::MAX,
        from <= fields.len(),
        is_apart(name, "_decode"@, path, slot_rank(slots, from as usize)),
    ensures
        ({
            let out = split_loaded(
                fields,
                slots,
                storage,
                base_offset,
                path,
                codec_class,
                from,
                code,
                defs,
                methods,
                values,
            ).2;
            &&& out.contains_key(name) == methods.contains_key(name)
            &&& out[name] == methods[name]
        }),
    decreases fields, 0nat, fields.len() - from,
{
    if from < fields.len() {
        let item = fields[from as int];
        let rank = slot_rank(slots, from as usize);
        slot_rank_grows(slots, from as usize);
        assert((from as usize + 1) as usize == (from + 1) as usize);
        if slot_at(slots, from as usize) is None {
            loading_adds_helpers_only(
                fields,
                slots,
                storage,
                base_offset,
                path,
                codec_class,
                from + 1,
                code,
                defs,
                methods,
                values,
                name,
            );
        } else {
            let slot = slot_at(slots, from as usize)->0;
            if is_dynamic(item.ty) {
                loading_adds_helpers_only(
                    fields,
                    slots,
                    storage,
                    base_offset,
                    path,
                    codec_class,
                    from + 1,
                    code,
                    defs,
                    methods,
                    value_appended(default_value(slot.ty), slot.ty, values),
                    name,
                );
            } else {
                let field_path = part_path(path, slots, from as usize);
                let own_name = "_decode"@ + field_path;
                assert(own_name == helper_name("_decode"@, path, rank));
                helper_is_under("_decode"@, path, rank);
                assert(name != own_name);
                assert forall|number: nat| number >= 0 implies !#[trigger] is_under(
                    name,
                    "_decode"@,
                    field_path,
                    number,
                ) by {
                    if is_under(name, "_decode"@, field_path, number) {
                        nested_is_under(name, "_decode"@, path, rank, number);
                    }
                }
                let inner = split_ty_loaded(
                    item.ty,
                    storage_at_start("_1"@, "_2"@),
                    offset_sum(base_offset, item.offset),
                    field_path,
                    codec_class,
                    empty_code(0),
                    defs,
                    methods,
                );
                loading_a_part_adds_helpers_only(
                    item.ty,
                    storage_at_start("_1"@, "_2"@),
                    offset_sum(base_offset, item.offset),
                    field_path,
                    codec_class,
                    empty_code(0),
                    defs,
                    methods,
                    name,
                );
                if inner.3 is Ok {
                    let signature = static_method(
                        params2("bytes"@, byte_array(), "objects"@, object_array()),
                        slot.ty,
                    );
                    let list = emit(inner.0, returns_value(inner.3->Ok_0)).instructions;
                    let more = function_put(
                        own_name,
                        plain_function(own_name, signature, single_block(list)),
                        inner.2,
                    );
                    let (taken, dest) = fresh(code, "union_decoded_field"@);
                    let code1 = emit(
                        taken,
                        calls_static(
                            dest,
                            codec_class,
                            own_name,
                            signature,
                            args2(
                                variable(storage.bytes_var, byte_array()),
                                variable(storage.objects_var, object_array()),
                            ),
                        ),
                    );
                    loading_adds_helpers_only(
                        fields,
                        slots,
                        storage,
                        base_offset,
                        path,
                        codec_class,
                        from + 1,
                        code1,
                        inner.1,
                        more,
                        value_appended(variable(dest, slot.ty), slot.ty, values),
                        name,
                    );
                }
            }
        }
    }
}

/// Loading a part adds no methods but helpers of its parts.
proof fn loading_a_part_adds_helpers_only(
    ty: RustType,
    storage: UnionStorageModel,
    base_offset: usize,
    path: Text,
    codec_class: Text,
    code: CodeModel,
    defs: DefinitionsModel,
    methods: Methods,
    name: Text,
)
    requires
        is_apart(name, "_decode"@, path, 0),
    ensures
        ({
            let out = split_ty_loaded(
                ty,
                storage,
                base_offset,
                path,
                codec_class,
                code,
                defs,
                methods,
            ).2;
            &&& out.contains_key(name) == methods.contains_key(name)
            &&& out[name] == methods[name]
        }),
    decreases ty, 5nat, 0nat,
{
    match ty.kind {
        TypeKind::Tuple { class_name, elements } => {
            let known = defined_fields(elements@, 0, defs);
            let slots = slots_of_fields(SlotNames::Elements, class_name@, elements@, known);
            assert(elements@.len() == elements.len());
            if is_split(slots) {
                loading_adds_helpers_only(
                    elements@,
                    slots,
                    storage,
                    base_offset,
                    path,
                    codec_class,
                    0,
                    code,
                    known,
                    methods,
                    typed0(),
                    name,
                );
            }
        },
        TypeKind::Closure { class_name, captures, .. } => {
            let known = closure_parts_defined(class_name@, captures@, defs);
            let slots = slots_of_fields(SlotNames::Captures, class_name@, captures@, known);
            assert(captures@.len() == captures.len());
            if is_split(slots) {
                loading_adds_helpers_only(
                    captures@,
                    slots,
                    storage,
                    base_offset,
                    path,
                    codec_class,
                    0,
                    code,
                    known,
                    methods,
                    typed0(),
                    name,
                );
            }
        },
        TypeKind::Adt(adt) => {
            if adt.layout is Ok && is_laid_out_struct(adt) {
                let fields = adt.variants@[0].fields@;
                let known = struct_parts_defined(adt, defs);
                let slots = slots_of_fields(
                    SlotNames::Declared,
                    adt.class_name@,
                    fields,
                    known,
                );
                assert(fields.len() == adt.variants@[0].fields.len());
                if is_split(slots) {
                    loading_adds_helpers_only(
                        fields,
                        slots,
                        storage,
                        base_offset,
                        path,
                        codec_class,
                        0,
                        code,
                        known,
                        methods,
                        typed0(),
                        name,
                    );
                }
            }
        },
        _ => {},
    }
}

/// The helpers of a part are not replaced by those of later parts.
proof fn inner_helpers_stay(
    fields: Seq<Field>,
    slots: Seq<Option<SlotModel>>,
    storage: UnionStorageModel,
    base_offset: usize,
    path: Text,
    codec_class: Text,
    index: nat,
    code: CodeModel,
    defs: DefinitionsModel,
    inner: Methods,
    own: DataTypeMethodModel,
    values: Seq<(OperandModel, TypeModel)>,
    all: Methods,
)
    requires
        slots.len() == fields.len() <= usize::MAX,
        index < fields.len(),
        slots[index as int] is Some,
        are_there(
            all,
            split_loaded(
                fields,
                slots,
                storage,
                base_offset,
                path,
                codec_class,
                index + 1,
                code,
                defs,
                inner.insert(
                    helper_name("_decode"@, path, slot_rank(slots, index as usize)),
                    own,
                ),
                values,
            ).2,
            "_decode"@,
            path,
            slot_rank(slots, index as usize),
        ),
    ensures
        ({
            let own_name = helper_name("_decode"@, path, slot_rank(slots, index as usize));
            &&& all.contains_key(own_name)
            &&& all[own_name] == own
            &&& are_there(all, inner, "_decode"@, part_path(path, slots, index as usize), 0)
        }),
{
    let rank = slot_rank(slots, index as usize);
    let own_name = helper_name("_decode"@, path, rank);
    let more = inner.insert(own_name, own);
    let field_path = part_path(path, slots, index as usize);
    slot_rank_grows(slots, index as usize);
    assert((index as usize + 1) as usize == (index + 1) as usize);
    let out = split_loaded(
        fields,
        slots,
        storage,
        base_offset,
        path,
        codec_class,
        index + 1,
        code,
        defs,
        more,
        values,
    ).2;
    helper_is_under("_decode"@, path, rank);
    assert forall|number: nat| number >= rank + 1 implies !#[trigger] is_under(
        own_name,
        "_decode"@,
        path,
        number,
    ) by {
        if is_under(own_name, "_decode"@, path, number) {
            parts_are_named_apart(own_name, "_decode"@, path, rank, number);
        }
    }
    loading_adds_helpers_only(
        fields,
        slots,
        storage,
        base_offset,
        path,
        codec_class,
        index + 1,
        code,
        defs,
        more,
        values,
        own_name,
    );
    assert forall|name: Text, number: nat|
        number >= 0 && #[trigger] is_under(name, "_decode"@, field_path, number)
            && inner.contains_key(name) implies all.contains_key(name) && all[name]
        == inner[name] by {
        nested_is_under(name, "_decode"@, path, rank, number);
        assert forall|later: nat| later >= rank + 1 implies !#[trigger] is_under(
            name,
            "_decode"@,
            path,
            later,
        ) by {
            if is_under(name, "_decode"@, path, later) {
                parts_are_named_apart(name, "_decode"@, path, rank, later);
            }
        }
        loading_adds_helpers_only(
            fields,
            slots,
            storage,
            base_offset,
            path,
            codec_class,
            index + 1,
            code,
            defs,
            more,
            values,
            name,
        );
        assert(out.contains_key(name));
    }
}

/// A helper that loads a part starts with the array that it reads.
proof fn helper_starts_with_the_bytes(m: Machine, bytes_var: Text, objects_var: Text)
    ensures
        ({
            let args = args2(
                variable(bytes_var, byte_array()),
                variable(objects_var, object_array()),
            );
            let callee = entered(m, args, 2);
            &&& callee.arrays.contains_key("_1"@)
            &&& callee.arrays["_1"@] == m.arrays[bytes_var]
            &&& callee.classes == m.classes
        }),
{
    reveal(args2);
    parameters_are_named_by_number();
    reveal_with_fuel(entered, 3);
    let args = args2(variable(bytes_var, byte_array()), variable(objects_var, object_array()));
    assert(is_byte_array(args[0]));
    let e1 = entered(m, args, 1);
    assert(e1.arrays["_1"@] == m.arrays[bytes_var]);
}

/// Calling a helper that loads gives what it returns, and leaves everything else as it was.
proof fn helper_call_loads(
    all: Methods,
    codec_class: Text,
    m: Machine,
    bytes_var: Text,
    objects_var: Text,
    own_name: Text,
    signature: SignatureModel,
    list: Seq<InstructionModel>,
    dest: Text,
    result: OperandModel,
    value: Value,
    callee: Machine,
    depth: nat,
)
    requires
        depth > 0,
        !is_bit_conversion(codec_class, own_name),
        all.contains_key(own_name),
        all[own_name] is Function,
        method_list(all, own_name) == list,
        list.len() > 0,
        list.last() == returns_value(result),
        run(
            all,
            codec_class,
            entered(
                m,
                args2(variable(bytes_var, byte_array()), variable(objects_var, object_array())),
                2,
            ),
            list.drop_last(),
            0,
            (depth - 1) as nat,
        ) == Some(callee),
        full_value(callee, result) == Some(value),
        m.arrays.contains_key(bytes_var),
        callee.arrays["_1"@] == m.arrays[bytes_var],
    ensures
        run_step(
            all,
            codec_class,
            m,
            calls_static(
                dest,
                codec_class,
                own_name,
                signature,
                args2(variable(bytes_var, byte_array()), variable(objects_var, object_array())),
            ),
            depth,
        ) == Some(value_assigned(m, dest, value)),
{
    reveal(args2);
    parameters_are_named_by_number();
    let args = args2(variable(bytes_var, byte_array()), variable(objects_var, object_array()));
    assert(args.len() == 2);
    assert(is_byte_array(args[0]) && !is_byte_array(args[1]));
    reveal_with_fuel(left, 3);
    assert(left(m, callee, args, 1).arrays =~= m.arrays);
    assert(left(m, callee, args, 2) == left(m, callee, args, 1));
    assert(left(m, callee, args, 2) == m);
}

/// Loading parts through their helpers gives the parts that the bytes show.
proof fn split_parts_are_loaded(
    slots: Seq<Option<SlotModel>>,
    class_name: Text,
    fields: Seq<Field>,
    size: usize,
    value: Value,
    index: nat,
    bytes_var: Text,
    objects_var: Text,
    base_offset: usize,
    path: Text,
    codec_class: Text,
    code: CodeModel,
    defs: DefinitionsModel,
    methods: Methods,
    values: Seq<(OperandModel, TypeModel)>,
    all: Methods,
    from: nat,
    first: Machine,
    m: Machine,
    depth: nat,
) -> (n: Machine)
    requires
        from <= code.instructions.len(),
        has_plain_parts(slots, class_name, fields, size, defs, m.classes),
        parts_fit(class_name, fields, value),
        index <= fields.len(),
        m.arrays.contains_key(bytes_var),
        base_offset + size <= m.arrays[bytes_var].len() <= i32::MAX,
        parts_show(fields, value->parts, m.arrays[bytes_var], base_offset as int),
        values.len() == valued_before(fields, index),
        hold_parts(m, values, value->parts, code.temps),
        code.temps + temps_needed_from(fields, index) <= usize::MAX,
        calls_needed_from(fields, index) <= depth,
    ensures
        ({
            let (after, defs1, out, read, outcome) = split_loaded(
                fields,
                slots,
                storage_at_start(bytes_var, objects_var),
                base_offset,
                path,
                codec_class,
                index,
                code,
                defs,
                methods,
                values,
            );
            &&& outcome is Ok
            &&& defs1 == defs
            &&& run(all, codec_class, first, code.instructions, from, depth) == Some(m)
                && are_there(all, out, "_decode"@, path, slot_rank(slots, index as usize)) ==> run(
                all,
                codec_class,
                first,
                after.instructions,
                from,
                depth,
            ) == Some(n)
            &&& n.arrays == m.arrays
            &&& kept(m, n, code.temps)
            &&& goes_on(code, after, temps_needed_from(fields, index) as int)
            &&& read.len() == value->parts.len()
            &&& hold_parts(n, read, value->parts, after.temps)
        }),
    decreases fields, 0nat, fields.len() - index,
{
    let storage = storage_at_start(bytes_var, objects_var);
    if index >= fields.len() {
        kept_by_nothing(m, m, code.temps);
        m
    } else {
        let item = fields[index as int];
        let rank = slot_rank(slots, index as usize);
        slot_rank_grows(slots, index as usize);
        assert((index as usize + 1) as usize == (index + 1) as usize);
        assert(slot_at(slots, index as usize) == slots[index as int]);
        if !is_valued(item) {
            split_parts_are_loaded(
                slots,
                class_name,
                fields,
                size,
                value,
                index + 1,
                bytes_var,
                objects_var,
                base_offset,
                path,
                codec_class,
                code,
                defs,
                methods,
                values,
                all,
                from,
                first,
                m,
                depth,
            )
        } else {
            reveal_strlit("union_decoded_field");
            let part = value->parts[valued_before(fields, index) as int];
            let slot = slots[index as int]->0;
            field_holds_its_part(slots, class_name, fields, size, value, index, m, defs);
            plain_type_is_known(item.ty, part, defs, m.classes);
            let field_path = part_path(path, slots, index as usize);
            let own_name = "_decode"@ + field_path;
            assert(own_name == helper_name("_decode"@, path, rank));
            let signature = static_method(
                params2("bytes"@, byte_array(), "objects"@, object_array()),
                slot.ty,
            );
            let args = args2(
                variable(bytes_var, byte_array()),
                variable(objects_var, object_array()),
            );
            let callee = entered(m, args, 2);
            helper_starts_with_the_bytes(m, bytes_var, objects_var);
            let offset = offset_sum(base_offset, item.offset);
            let inner = split_ty_loaded(
                item.ty,
                storage_at_start("_1"@, "_2"@),
                offset,
                field_path,
                codec_class,
                empty_code(0),
                defs,
                methods,
            );
            let c2 = split_value_is_loaded(
                item.ty,
                part,
                "_1"@,
                "_2"@,
                offset,
                field_path,
                codec_class,
                empty_code(0),
                defs,
                methods,
                all,
                0,
                callee,
                callee,
                (depth - 1) as nat,
            );
            let result = inner.3->Ok_0;
            let list = emit(inner.0, returns_value(result)).instructions;
            let own = DataTypeMethodModel::Function(
                plain_function(own_name, signature, single_block(list)),
            );
            let more = inner.2.insert(own_name, own);
            let (taken, dest) = fresh(code, "union_decoded_field"@);
            let call = calls_static(dest, codec_class, own_name, signature, args);
            let code1 = emit(taken, call);
            let m1 = value_assigned(m, dest, part);
            let operand = variable(dest, slot.ty);
            let longer = value_appended(operand, slot.ty, values);
            value_assignment_keeps(m, "union_decoded_field"@, code.temps, part);
            taken_is_settled("union_decoded_field"@, code.temps, code1.temps);
            classes_are_kept(m, m1, code.temps);
            parts_are_still_held(m, m1, values, value->parts, code.temps, code1.temps);
            assert(full_value(m1, operand) == Some(part));
            assert(hold_parts(m1, longer, value->parts, code1.temps)) by {
                assert forall|k: int| 0 <= k < longer.len() implies full_value(
                    m1,
                    #[trigger] longer[k].0,
                ) == Some(value->parts[k]) && is_settled(longer[k].0, code1.temps) by {
                    if k < values.len() {
                        assert(longer[k] == values[k]);
                    }
                }
            }
            let n = split_parts_are_loaded(
                slots,
                class_name,
                fields,
                size,
                value,
                index + 1,
                bytes_var,
                objects_var,
                base_offset,
                path,
                codec_class,
                code1,
                defs,
                more,
                longer,
                all,
                from,
                first,
                m1,
                depth,
            );
            kept_by_both(m, m1, n, code.temps, code1.temps);
            let rest = split_loaded(
                fields,
                slots,
                storage,
                base_offset,
                path,
                codec_class,
                index + 1,
                code1,
                defs,
                more,
                longer,
            );
            assert(split_loaded(
                fields,
                slots,
                storage,
                base_offset,
                path,
                codec_class,
                index,
                code,
                defs,
                methods,
                values,
            ) == rest);
            if run(all, codec_class, first, code.instructions, from, depth) == Some(m) && are_there(
                all,
                rest.2,
                "_decode"@,
                path,
                rank,
            ) {
                inner_helpers_stay(
                    fields,
                    slots,
                    storage,
                    base_offset,
                    path,
                    codec_class,
                    index,
                    code1,
                    defs,
                    inner.2,
                    own,
                    longer,
                    all,
                );
                assert(list.drop_last() =~= inner.0.instructions);
                assert(method_list(all, own_name) == list);
                helpers_are_no_conversions(codec_class, "_decode"@, field_path);
                helper_call_loads(
                    all,
                    codec_class,
                    m,
                    bytes_var,
                    objects_var,
                    own_name,
                    signature,
                    list,
                    dest,
                    result,
                    part,
                    c2,
                    depth,
                );
                run_one_more(all, codec_class, first, taken, from, call, depth);
            }
            n
        }
    }
}

/// Loading an aggregate through the helpers of its parts gives the object that the bytes show.
pub proof fn split_aggregate_is_loaded(
    slots: Seq<Option<SlotModel>>,
    class_name: Text,
    fields: Seq<Field>,
    size: usize,
    value: Value,
    bytes_var: Text,
    objects_var: Text,
    base_offset: usize,
    path: Text,
    codec_class: Text,
    code: CodeModel,
    defs: DefinitionsModel,
    methods: Methods,
    all: Methods,
    from: nat,
    first: Machine,
    m: Machine,
    depth: nat,
) -> (n: Machine)
    requires
        from <= code.instructions.len(),
        has_plain_parts(slots, class_name, fields, size, defs, m.classes),
        parts_fit(class_name, fields, value),
        m.arrays.contains_key(bytes_var),
        base_offset + size <= m.arrays[bytes_var].len() <= i32::MAX,
        parts_show(fields, value->parts, m.arrays[bytes_var], base_offset as int),
        code.temps + 1 + temps_needed_from(fields, 0) <= usize::MAX,
        calls_needed_from(fields, 0) <= depth,
    ensures
        ({
            let (after, defs1, out, outcome) = split_aggregate_loaded(
                fields,
                slots,
                class_name,
                storage_at_start(bytes_var, objects_var),
                base_offset,
                path,
                codec_class,
                code,
                defs,
                methods,
            );
            &&& outcome matches Ok(result)
            &&& defs1 == defs
            &&& run(all, codec_class, first, code.instructions, from, depth) == Some(m)
                && are_there(all, out, "_decode"@, path, 0) ==> run(
                all,
                codec_class,
                first,
                after.instructions,
                from,
                depth,
            ) == Some(n)
            &&& n.arrays == m.arrays
            &&& goes_on(code, after, 1 + temps_needed_from(fields, 0) as int)
            &&& full_value(n, result) == Some(value)
        }),
    decreases fields, 1nat, 0nat,
{
    reveal_strlit("union_aggregate_value");
    assert(slots.take(0) =~= Seq::<Option<SlotModel>>::empty());
    let storage = storage_at_start(bytes_var, objects_var);
    let parts = value->parts;
    let loading = split_loaded(
        fields,
        slots,
        storage,
        base_offset,
        path,
        codec_class,
        0,
        code,
        defs,
        methods,
        typed0(),
    );
    let m1 = split_parts_are_loaded(
        slots,
        class_name,
        fields,
        size,
        value,
        0,
        bytes_var,
        objects_var,
        base_offset,
        path,
        codec_class,
        code,
        defs,
        methods,
        typed0(),
        all,
        from,
        first,
        m,
        depth,
    );
    let code1 = loading.0;
    let values = loading.3;
    let (taken, dest) = fresh(code1, "union_aggregate_value"@);
    let instruction = makes_object(dest, class_name, values);
    let made = Seq::new(values.len(), |i: int| full_value(m1, values[i].0)->0);
    assert(made =~= parts);
    let n = value_assigned(m1, dest, value);
    assert(stepped(m1, instruction) == Some(n));
    assert(run_step(all, codec_class, m1, instruction, depth) == stepped(m1, instruction));
    run_one_more(all, codec_class, first, taken, from, instruction, depth);
    n
}

/// Loading a part gives the value that its bytes show, in place or through the helpers of its
/// parts.
#[verifier::rlimit(60)]
proof fn split_value_is_loaded(
    ty: RustType,
    value: Value,
    bytes_var: Text,
    objects_var: Text,
    base_offset: usize,
    path: Text,
    codec_class: Text,
    code: CodeModel,
    defs: DefinitionsModel,
    methods: Methods,
    all: Methods,
    from: nat,
    first: Machine,
    m: Machine,
    depth: nat,
) -> (n: Machine)
    requires
        from <= code.instructions.len(),
        is_plain(ty, defs, m.classes),
        fits(ty, value),
        m.arrays.contains_key(bytes_var),
        base_offset + bytes_of(ty) <= m.arrays[bytes_var].len() <= i32::MAX,
        shows(ty, value, m.arrays[bytes_var], base_offset as int),
        code.temps + temps_needed(ty) <= usize::MAX,
        calls_needed(ty) <= depth,
    ensures
        ({
            let (after, defs1, out, outcome) = split_ty_loaded(
                ty,
                storage_at_start(bytes_var, objects_var),
                base_offset,
                path,
                codec_class,
                code,
                defs,
                methods,
            );
            &&& outcome matches Ok(result)
            &&& defs1 == defs
            &&& run(all, codec_class, first, code.instructions, from, depth) == Some(m)
                && are_there(all, out, "_decode"@, path, 0) ==> run(
                all,
                codec_class,
                first,
                after.instructions,
                from,
                depth,
            ) == Some(n)
            &&& n.arrays == m.arrays
            &&& full_value(n, result) == Some(value)
        }),
    decreases ty, 5nat, 0nat,
{
    let storage = storage_at_start(bytes_var, objects_var);
    plain_type_is_known(ty, value, defs, m.classes);
    if is_split_type(ty, defs) {
        reveal_with_fuel(lowered, 2);
        match ty.kind {
            TypeKind::Tuple { class_name, elements } => split_aggregate_is_loaded(
                slots_of_fields(SlotNames::Elements, class_name@, elements@, defs),
                class_name@,
                elements@,
                bytes_of(ty),
                value,
                bytes_var,
                objects_var,
                base_offset,
                path,
                codec_class,
                code,
                defs,
                methods,
                all,
                from,
                first,
                m,
                depth,
            ),
            TypeKind::Closure { class_name, captures, .. } => split_aggregate_is_loaded(
                slots_of_fields(SlotNames::Captures, class_name@, captures@, defs),
                class_name@,
                captures@,
                bytes_of(ty),
                value,
                bytes_var,
                objects_var,
                base_offset,
                path,
                codec_class,
                code,
                defs,
                methods,
                all,
                from,
                first,
                m,
                depth,
            ),
            TypeKind::Adt(adt) => split_aggregate_is_loaded(
                slots_of_fields(
                    SlotNames::Declared,
                    adt.class_name@,
                    adt.variants@[0].fields@,
                    defs,
                ),
                adt.class_name@,
                adt.variants@[0].fields@,
                bytes_of(ty),
                value,
                bytes_var,
                objects_var,
                base_offset,
                path,
                codec_class,
                code,
                defs,
                methods,
                all,
                from,
                first,
                m,
                depth,
            ),
            _ => m,
        }
    } else {
        let middle = code.instructions.len();
        let n = value_is_loaded(
            ty,
            value,
            storage,
            base_offset,
            code,
            defs,
            middle,
            m,
            m,
            0,
        );
        let after = loaded(ty, storage, base_offset, code, defs).0;
        assert(after.instructions.take(middle as int) =~= code.instructions);
        if run(all, codec_class, first, code.instructions, from, depth) == Some(m) {
            run_goes_on(
                all,
                codec_class,
                first,
                m,
                after.instructions,
                from,
                middle,
                depth,
            );
        }
        n
    }
}

} // verus!
