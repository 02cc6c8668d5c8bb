//! What a codec encodes, part by part through its helper methods.
use crate::code::{
    CodeModel, DefinitionsModel, args3, byte_array, class, emit, empty_code, fresh, function_put,
    object_array, params3, plain_function, reads_field, returns_nothing, runs_static,
    single_block, static_method, variable,
};
use crate::codec::{is_laid_out_struct, part_path, slot_rank};
use crate::execution::{
    Machine, Value, classes_are_kept, field_value, full_value, is_bit_conversion, is_later,
    stepped, taken_is_settled, value_assigned,
};
use crate::helper_calls::{
    Methods, are_there, entered, helper_is_under, helper_name, helpers_are_no_conversions,
    is_apart, is_byte_array, is_under, left, method_list, nested_is_under, param_name,
    parts_are_named_apart, run, run_goes_on, run_one_more, run_step, slot_rank_grows,
};
use crate::layout::{SlotModel, SlotNames, is_split, slot_at, slots_of_fields, valued_before};
use crate::lowering::{closure_parts_defined, defined_fields, struct_parts_defined};
use crate::oomir::{
    DataTypeMethodModel, Function, InstructionModel, OperandModel, SignatureModel, Text, Type,
};
use crate::pointer_codec::{split_stored, split_ty_stored};
use crate::round_trip::goes_on;
use crate::rust_type::{Field, RustType, TypeKind, is_dynamic, lowered};
use crate::store::stored;
use crate::union_storage::{UnionStorageModel, offset_sum, storage_at_start};
use crate::value_bytes::{
    bytes_of, fits, has_plain_parts, image, image_from, image_is_local, is_plain, is_valued,
    parts_fit,
};
use crate::value_trip::{
    field_holds_its_part, plain_type_is_known, temps_needed, temps_needed_from, value_is_stored,
};
use vstd::prelude::*;
use vstd::string::*;

verus! {

/// How many calls within each other the codec of a type needs for a part of the type.
pub open spec fn calls_needed(ty: RustType) -> nat
    decreases ty, 1nat, 0nat,
{
    match ty.kind {
        TypeKind::Tuple { elements, .. } => calls_needed_from(elements@, 0),
        TypeKind::Closure { captures, .. } => calls_needed_from(captures@, 0),
        TypeKind::Adt(adt) => if adt.variants@.len() > 0 {
            calls_needed_from(adt.variants@[0].fields@, 0)
        } else {
            0
        },
        _ => 0,
    }
}

/// How many calls within each other the parts from one on need.
pub open spec fn calls_needed_from(fields: Seq<Field>, from: nat) -> nat
    decreases fields, 0nat, fields.len() - from,
{
    if from >= fields.len() {
        0
    } else {
        let one = 1 + calls_needed(fields[from as int].ty);
        let rest = calls_needed_from(fields, from + 1);
        if one < rest {
            rest
        } else {
            one
        }
    }
}

/// Storing parts adds no methods but their helpers.
pub proof fn storing_adds_helpers_only(
    fields: Seq<Field>,
    slots: Seq<Option<SlotModel>>,
    class_name: Text,
    source: OperandModel,
    storage: UnionStorageModel,
    base_offset: usize,
    path: Text,
    codec_class: Text,
    from: nat,
    code: CodeModel,
    defs: DefinitionsModel,
    methods: Methods,
    name: Text,
)
    requires
        slots.len() == fields.len() <= usize::MAX,
        from <= fields.len(),
        is_apart(name, "_encode"@, path, slot_rank(slots, from as usize)),
    ensures
        ({
            let out = split_stored(
                fields,
                slots,
                class_name,
                source,
                storage,
                base_offset,
                path,
                codec_class,
                from,
                code,
                defs,
                methods,
            ).2;
            &&& out.contains_key(name) == methods.contains_key(name)
            &&& out[name] == methods[name]
        }),
    decreases fields, 0nat, fields.len() - from,
{
    if from < fields.len() {
        let item = fields[from as int];
        let rank = slot_rank(slots, from as usize);
        slot_rank_grows(slots, from as usize);
        assert((from as usize + 1) as usize == (from + 1) as usize);
        if slot_at(slots, from as usize) is None || is_dynamic(item.ty) {
            storing_adds_helpers_only(
                fields,
                slots,
                class_name,
                source,
                storage,
                base_offset,
                path,
                codec_class,
                from + 1,
                code,
                defs,
                methods,
                name,
            );
        } else {
            let slot = slot_at(slots, from as usize)->0;
            let field_path = part_path(path, slots, from as usize);
            let own_name = "_encode"@ + field_path;
            assert(own_name == helper_name("_encode"@, path, rank));
            helper_is_under("_encode"@, path, rank);
            assert(name != own_name);
            assert forall|number: nat| number >= 0 implies !#[trigger] is_under(
                name,
                "_encode"@,
                field_path,
                number,
            ) by {
                if is_under(name, "_encode"@, field_path, number) {
                    nested_is_under(name, "_encode"@, path, rank, number);
                }
            }
            let (helper, field_dest) = fresh(empty_code(0), "union_aggregate_field"@);
            let helper = emit(
                helper,
                reads_field(
                    field_dest,
                    variable("_1"@, class(class_name)),
                    slot.name,
                    slot.ty,
                    class_name,
                ),
            );
            let inner = split_ty_stored(
                item.ty,
                variable(field_dest, slot.ty),
                storage_at_start("_2"@, "_3"@),
                offset_sum(base_offset, item.offset),
                field_path,
                codec_class,
                helper,
                defs,
                methods,
            );
            storing_a_part_adds_helpers_only(
                item.ty,
                variable(field_dest, slot.ty),
                storage_at_start("_2"@, "_3"@),
                offset_sum(base_offset, item.offset),
                field_path,
                codec_class,
                helper,
                defs,
                methods,
                name,
            );
            if inner.3 is Ok {
                let signature = static_method(
                    params3(
                        "value"@,
                        class(class_name),
                        "bytes"@,
                        byte_array(),
                        "objects"@,
                        object_array(),
                    ),
                    Type::Void,
                );
                let list = emit(inner.0, returns_nothing()).instructions;
                let more = function_put(
                    own_name,
                    plain_function(own_name, signature, single_block(list)),
                    inner.2,
                );
                let code1 = emit(
                    code,
                    runs_static(
                        codec_class,
                        own_name,
                        signature,
                        args3(
                            source,
                            variable(storage.bytes_var, byte_array()),
                            variable(storage.objects_var, object_array()),
                        ),
                    ),
                );
                storing_adds_helpers_only(
                    fields,
                    slots,
                    class_name,
                    source,
                    storage,
                    base_offset,
                    path,
                    codec_class,
                    from + 1,
                    code1,
                    inner.1,
                    more,
                    name,
                );
            }
        }
    }
}

/// Storing a part adds no methods but helpers of its parts.
proof fn storing_a_part_adds_helpers_only(
    ty: RustType,
    source: OperandModel,
    storage: UnionStorageModel,
    base_offset: usize,
    path: Text,
    codec_class: Text,
    code: CodeModel,
    defs: DefinitionsModel,
    methods: Methods,
    name: Text,
)
    requires
        is_apart(name, "_encode"@, path, 0),
    ensures
        ({
            let out = split_ty_stored(
                ty,
                source,
                storage,
                base_offset,
                path,
                codec_class,
                code,
                defs,
                methods,
            ).2;
            &&& out.contains_key(name) == methods.contains_key(name)
            &&& out[name] == methods[name]
        }),
    decreases ty, 5nat, 0nat,
{
    match ty.kind {
        TypeKind::Tuple { class_name, elements } => {
            let known = defined_fields(elements@, 0, defs);
            let slots = slots_of_fields(SlotNames::Elements, class_name@, elements@, known);
            assert(elements@.len() == elements.len());
            if is_split(slots) {
                storing_adds_helpers_only(
                    elements@,
                    slots,
                    class_name@,
                    source,
                    storage,
                    base_offset,
                    path,
                    codec_class,
                    0,
                    code,
                    known,
                    methods,
                    name,
                );
            }
        },
        TypeKind::Closure { class_name, captures, .. } => {
            let known = closure_parts_defined(class_name@, captures@, defs);
            let slots = slots_of_fields(SlotNames::Captures, class_name@, captures@, known);
            assert(captures@.len() == captures.len());
            if is_split(slots) {
                storing_adds_helpers_only(
                    captures@,
                    slots,
                    class_name@,
                    source,
                    storage,
                    base_offset,
                    path,
                    codec_class,
                    0,
                    code,
                    known,
                    methods,
                    name,
                );
            }
        },
        TypeKind::Adt(adt) => {
            if adt.layout is Ok && is_laid_out_struct(adt) {
                let fields = adt.variants@[0].fields@;
                let known = struct_parts_defined(adt, defs);
                let slots = slots_of_fields(
                    SlotNames::Declared,
                    adt.class_name@,
                    fields,
                    known,
                );
                assert(fields.len() == adt.variants@[0].fields.len());
                if is_split(slots) {
                    storing_adds_helpers_only(
                        fields,
                        slots,
                        adt.class_name@,
                        source,
                        storage,
                        base_offset,
                        path,
                        codec_class,
                        0,
                        code,
                        known,
                        methods,
                        name,
                    );
                }
            }
        },
        _ => {},
    }
}

/// Storing parts through their helpers puts their bytes into the array, and changes nothing else.
pub proof fn split_parts_are_stored(
    slots: Seq<Option<SlotModel>>,
    class_name: Text,
    fields: Seq<Field>,
    size: usize,
    value: Value,
    index: nat,
    source_name: Text,
    bytes_var: Text,
    objects_var: Text,
    base_offset: usize,
    path: Text,
    codec_class: Text,
    code: CodeModel,
    defs: DefinitionsModel,
    methods: Methods,
    all: Methods,
    from: nat,
    first: Machine,
    m: Machine,
    depth: nat,
) -> (n: Machine)
    requires
        from <= code.instructions.len(),
        has_plain_parts(slots, class_name, fields, size, defs, m.classes),
        parts_fit(class_name, fields, value),
        index <= fields.len(),
        m.objects.contains_key(source_name),
        m.objects[source_name] == value,
        m.arrays.contains_key(bytes_var),
        base_offset + size <= m.arrays[bytes_var].len() <= i32::MAX,
        temps_needed_from(fields, index) + 1 <= usize::MAX,
        calls_needed_from(fields, index) <= depth,
    ensures
        ({
            let (after, defs1, out, outcome) = split_stored(
                fields,
                slots,
                class_name,
                variable(source_name, class(class_name)),
                storage_at_start(bytes_var, objects_var),
                base_offset,
                path,
                codec_class,
                index,
                code,
                defs,
                methods,
            );
            &&& outcome is Ok
            &&& defs1 == defs
            &&& run(all, codec_class, first, code.instructions, from, depth) == Some(m)
                && are_there(all, out, "_encode"@, path, slot_rank(slots, index as usize)) ==> run(
                all,
                codec_class,
                first,
                after.instructions,
                from,
                depth,
            ) == Some(n)
            &&& n == Machine {
                arrays: m.arrays.insert(
                    bytes_var,
                    image_from(
                        fields,
                        value->parts,
                        index,
                        m.arrays[bytes_var],
                        base_offset as int,
                    ),
                ),
                ..m
            }
            &&& goes_on(code, after, 0)
        }),
    decreases fields, 0nat, fields.len() - index,
{
    let source = variable(source_name, class(class_name));
    let storage = storage_at_start(bytes_var, objects_var);
    let bytes = m.arrays[bytes_var];
    if index >= fields.len() {
        assert(m.arrays.insert(bytes_var, bytes) =~= m.arrays);
        m
    } else {
        let item = fields[index as int];
        let rank = slot_rank(slots, index as usize);
        slot_rank_grows(slots, index as usize);
        assert((index as usize + 1) as usize == (index + 1) as usize);
        assert(slot_at(slots, index as usize) == slots[index as int]);
        if !is_valued(item) {
            split_parts_are_stored(
                slots,
                class_name,
                fields,
                size,
                value,
                index + 1,
                source_name,
                bytes_var,
                objects_var,
                base_offset,
                path,
                codec_class,
                code,
                defs,
                methods,
                all,
                from,
                first,
                m,
                depth,
            )
        } else {
            reveal_strlit("union_aggregate_field");
            let part = value->parts[valued_before(fields, index) as int];
            let slot = slots[index as int]->0;
            field_holds_its_part(slots, class_name, fields, size, value, index, m, defs);
            plain_type_is_known(item.ty, part, defs, m.classes);
            let field_path = part_path(path, slots, index as usize);
            let own_name = "_encode"@ + field_path;
            assert(own_name == helper_name("_encode"@, path, rank));
            helper_is_under("_encode"@, path, rank);
            let signature = static_method(
                params3(
                    "value"@,
                    class(class_name),
                    "bytes"@,
                    byte_array(),
                    "objects"@,
                    object_array(),
                ),
                Type::Void,
            );
            let args = args3(
                source,
                variable(bytes_var, byte_array()),
                variable(objects_var, object_array()),
            );
            let callee = entered(m, args, 3);
            let (taken, field_dest) = fresh(empty_code(0), "union_aggregate_field"@);
            let helper = emit(
                taken,
                reads_field(
                    field_dest,
                    variable("_1"@, class(class_name)),
                    slot.name,
                    slot.ty,
                    class_name,
                ),
            );
            let c1 = value_assigned(callee, field_dest, part);
            helper_starts_with_the_part(
                slots,
                class_name,
                fields,
                size,
                value,
                index,
                source_name,
                bytes_var,
                objects_var,
                all,
                codec_class,
                defs,
                m,
                (depth - 1) as nat,
            );
            let offset = offset_sum(base_offset, item.offset);
            let inner = split_ty_stored(
                item.ty,
                variable(field_dest, slot.ty),
                storage_at_start("_2"@, "_3"@),
                offset,
                field_path,
                codec_class,
                helper,
                defs,
                methods,
            );
            let list = emit(inner.0, returns_nothing()).instructions;
            let more = function_put(
                own_name,
                plain_function(own_name, signature, single_block(list)),
                inner.2,
            );
            let call = runs_static(codec_class, own_name, signature, args);
            let code1 = emit(code, call);
            let c2 = split_value_is_stored(
                item.ty,
                part,
                field_dest,
                "_2"@,
                "_3"@,
                offset,
                field_path,
                codec_class,
                helper,
                defs,
                methods,
                all,
                0,
                callee,
                c1,
                (depth - 1) as nat,
            );
            let image1 = image(item.ty, part, bytes, offset as int);
            let m1 = Machine { arrays: m.arrays.insert(bytes_var, image1), ..m };
            image_is_local(item.ty, part, bytes, offset as int, defs, m.classes);
            let n = split_parts_are_stored(
                slots,
                class_name,
                fields,
                size,
                value,
                index + 1,
                source_name,
                bytes_var,
                objects_var,
                base_offset,
                path,
                codec_class,
                code1,
                defs,
                more,
                all,
                from,
                first,
                m1,
                depth,
            );
            let rest = split_stored(
                fields,
                slots,
                class_name,
                source,
                storage,
                base_offset,
                path,
                codec_class,
                index + 1,
                code1,
                defs,
                more,
            );
            assert(split_stored(
                fields,
                slots,
                class_name,
                source,
                storage,
                base_offset,
                path,
                codec_class,
                index,
                code,
                defs,
                methods,
            ) == rest);
            if run(all, codec_class, first, code.instructions, from, depth) == Some(m) && are_there(
                all,
                rest.2,
                "_encode"@,
                path,
                rank,
            ) {
                inner_helpers_stay(
                    fields,
                    slots,
                    class_name,
                    source,
                    storage,
                    base_offset,
                    path,
                    codec_class,
                    index,
                    code1,
                    defs,
                    inner.2,
                    DataTypeMethodModel::Function(
                        plain_function(own_name, signature, single_block(list)),
                    ),
                    all,
                );
                assert(list.drop_last() =~= inner.0.instructions);
                assert(method_list(all, own_name) == list);
                assert(run(
                    all,
                    codec_class,
                    callee,
                    list.drop_last(),
                    0,
                    (depth - 1) as nat,
                ) == Some(c2));
                helpers_are_no_conversions(codec_class, "_encode"@, field_path);
                helper_call_stores(
                    all,
                    codec_class,
                    m,
                    source_name,
                    class_name,
                    bytes_var,
                    objects_var,
                    own_name,
                    signature,
                    list,
                    c2,
                    depth,
                );
                run_one_more(all, codec_class, first, code, from, call, depth);
            }
            assert(n.arrays =~= m.arrays.insert(
                bytes_var,
                image_from(fields, value->parts, index, bytes, base_offset as int),
            ));
            n
        }
    }
}

/// Parameters are named by their numbers.
pub proof fn parameters_are_named_by_number()
    ensures
        param_name(1) == "_1"@,
        param_name(2) == "_2"@,
        param_name(3) == "_3"@,
        "_1"@ != "_2"@,
        "_1"@ != "_3"@,
        "_2"@ != "_3"@,
{
    reveal_strlit("_");
    reveal_strlit("_1");
    reveal_strlit("_2");
    reveal_strlit("_3");
    assert("_1"@[1] == '1' && "_2"@[1] == '2' && "_3"@[1] == '3');
    assert(param_name(1) =~= "_1"@);
    assert(param_name(2) =~= "_2"@);
    assert(param_name(3) =~= "_3"@);
}

/// A helper that stores a part starts with the whole value, and with the array that it writes.
proof fn callee_has_the_arguments(
    m: Machine,
    source_name: Text,
    class_name: Text,
    bytes_var: Text,
    objects_var: Text,
    value: Value,
)
    requires
        m.objects.contains_key(source_name),
        m.objects[source_name] == value,
        value is Object,
    ensures
        ({
            let args = args3(
                variable(source_name, class(class_name)),
                variable(bytes_var, byte_array()),
                variable(objects_var, object_array()),
            );
            let callee = entered(m, args, 3);
            &&& callee.objects.contains_key("_1"@)
            &&& callee.objects["_1"@] == value
            &&& callee.arrays.contains_key("_2"@)
            &&& callee.arrays["_2"@] == m.arrays[bytes_var]
            &&& callee.classes == m.classes
        }),
{
    reveal(args3);
    parameters_are_named_by_number();
    reveal_with_fuel(entered, 4);
    let args = args3(
        variable(source_name, class(class_name)),
        variable(bytes_var, byte_array()),
        variable(objects_var, object_array()),
    );
    assert(!is_byte_array(args[0]));
    assert(is_byte_array(args[1]));
    assert(full_value(m, args[0]) == Some(value));
    let e1 = entered(m, args, 1);
    assert(e1.objects["_1"@] == value);
    let e2 = entered(m, args, 2);
    assert(e2.arrays["_2"@] == m.arrays[bytes_var]);
}

/// A helper that stores a part reads the part first.
proof fn helper_starts_with_the_part(
    slots: Seq<Option<SlotModel>>,
    class_name: Text,
    fields: Seq<Field>,
    size: usize,
    value: Value,
    index: nat,
    source_name: Text,
    bytes_var: Text,
    objects_var: Text,
    all: Methods,
    codec_class: Text,
    defs: DefinitionsModel,
    m: Machine,
    depth: nat,
)
    requires
        has_plain_parts(slots, class_name, fields, size, defs, m.classes),
        parts_fit(class_name, fields, value),
        index < fields.len(),
        is_valued(fields[index as int]),
        m.objects.contains_key(source_name),
        m.objects[source_name] == value,
    ensures
        ({
            let args = args3(
                variable(source_name, class(class_name)),
                variable(bytes_var, byte_array()),
                variable(objects_var, object_array()),
            );
            let callee = entered(m, args, 3);
            let slot = slots[index as int]->0;
            let (taken, field_dest) = fresh(empty_code(0), "union_aggregate_field"@);
            let helper = emit(
                taken,
                reads_field(
                    field_dest,
                    variable("_1"@, class(class_name)),
                    slot.name,
                    slot.ty,
                    class_name,
                ),
            );
            let part = value->parts[valued_before(fields, index) as int];
            let c1 = value_assigned(callee, field_dest, part);
            &&& run(all, codec_class, callee, helper.instructions, 0, depth) == Some(c1)
            &&& full_value(c1, variable(field_dest, slot.ty)) == Some(part)
            &&& slot.ty == lowered(fields[index as int].ty)
            &&& !is_later(field_dest, helper.temps)
            &&& helper.temps == 1
            &&& c1.arrays.contains_key("_2"@)
            &&& c1.arrays["_2"@] == m.arrays[bytes_var]
            &&& c1.classes == m.classes
        }),
{
    reveal_strlit("union_aggregate_field");
    let item = fields[index as int];
    let part = value->parts[valued_before(fields, index) as int];
    let slot = slots[index as int]->0;
    field_holds_its_part(slots, class_name, fields, size, value, index, m, defs);
    plain_type_is_known(item.ty, part, defs, m.classes);
    let args = args3(
        variable(source_name, class(class_name)),
        variable(bytes_var, byte_array()),
        variable(objects_var, object_array()),
    );
    let callee = entered(m, args, 3);
    callee_has_the_arguments(m, source_name, class_name, bytes_var, objects_var, value);
    let (taken, field_dest) = fresh(empty_code(0), "union_aggregate_field"@);
    let instruction = reads_field(
        field_dest,
        variable("_1"@, class(class_name)),
        slot.name,
        slot.ty,
        class_name,
    );
    let helper = emit(taken, instruction);
    let c1 = value_assigned(callee, field_dest, part);
    assert(field_value(callee, value, slot.name) == Some(part));
    assert(full_value(callee, variable("_1"@, class(class_name))) == Some(value));
    assert(stepped(callee, instruction) == Some(c1));
    run_one_more(all, codec_class, callee, taken, 0, instruction, depth);
    assert(run_step(all, codec_class, callee, instruction, depth) == stepped(callee, instruction));
    taken_is_settled("union_aggregate_field"@, 0, helper.temps);
}

/// Calling a helper that stores leaves the array as the helper left it, and everything else as it
/// was.
proof fn helper_call_stores(
    all: Methods,
    codec_class: Text,
    m: Machine,
    source_name: Text,
    class_name: Text,
    bytes_var: Text,
    objects_var: Text,
    own_name: Text,
    signature: SignatureModel,
    list: Seq<InstructionModel>,
    callee: Machine,
    depth: nat,
)
    requires
        depth > 0,
        !is_bit_conversion(codec_class, own_name),
        all.contains_key(own_name),
        all[own_name] is Function,
        method_list(all, own_name) == list,
        list.len() > 0,
        list.last() == returns_nothing(),
        run(
            all,
            codec_class,
            entered(
                m,
                args3(
                    variable(source_name, class(class_name)),
                    variable(bytes_var, byte_array()),
                    variable(objects_var, object_array()),
                ),
                3,
            ),
            list.drop_last(),
            0,
            (depth - 1) as nat,
        ) == Some(callee),
    ensures
        run_step(
            all,
            codec_class,
            m,
            runs_static(
                codec_class,
                own_name,
                signature,
                args3(
                    variable(source_name, class(class_name)),
                    variable(bytes_var, byte_array()),
                    variable(objects_var, object_array()),
                ),
            ),
            depth,
        ) == Some(
            Machine { arrays: m.arrays.insert(bytes_var, callee.arrays["_2"@]), ..m },
        ),
{
    reveal(args3);
    parameters_are_named_by_number();
    let args = args3(
        variable(source_name, class(class_name)),
        variable(bytes_var, byte_array()),
        variable(objects_var, object_array()),
    );
    assert(args.len() == 3);
    assert(!is_byte_array(args[0]) && is_byte_array(args[1]) && !is_byte_array(args[2]));
    reveal_with_fuel(left, 4);
    assert(left(m, callee, args, 1) == m);
    assert(left(m, callee, args, 3) == left(m, callee, args, 2));
}

/// The helpers of a part are not replaced by those of later parts.
proof fn inner_helpers_stay(
    fields: Seq<Field>,
    slots: Seq<Option<SlotModel>>,
    class_name: Text,
    source: OperandModel,
    storage: UnionStorageModel,
    base_offset: usize,
    path: Text,
    codec_class: Text,
    index: nat,
    code: CodeModel,
    defs: DefinitionsModel,
    inner: Methods,
    own: DataTypeMethodModel,
    all: Methods,
)
    requires
        slots.len() == fields.len() <= usize::MAX,
        index < fields.len(),
        slots[index as int] is Some,
        are_there(
            all,
            split_stored(
                fields,
                slots,
                class_name,
                source,
                storage,
                base_offset,
                path,
                codec_class,
                index + 1,
                code,
                defs,
                inner.insert(
                    helper_name("_encode"@, path, slot_rank(slots, index as usize)),
                    own,
                ),
            ).2,
            "_encode"@,
            path,
            slot_rank(slots, index as usize),
        ),
    ensures
        ({
            let own_name = helper_name("_encode"@, path, slot_rank(slots, index as usize));
            &&& all.contains_key(own_name)
            &&& all[own_name] == own
            &&& are_there(all, inner, "_encode"@, part_path(path, slots, index as usize), 0)
        }),
{
    let rank = slot_rank(slots, index as usize);
    let own_name = helper_name("_encode"@, path, rank);
    let more = inner.insert(own_name, own);
    let field_path = part_path(path, slots, index as usize);
    slot_rank_grows(slots, index as usize);
    assert((index as usize + 1) as usize == (index + 1) as usize);
    let out = split_stored(
        fields,
        slots,
        class_name,
        source,
        storage,
        base_offset,
        path,
        codec_class,
        index + 1,
        code,
        defs,
        more,
    ).2;
    helper_is_under("_encode"@, path, rank);
    assert forall|number: nat| number >= rank + 1 implies !#[trigger] is_under(
        own_name,
        "_encode"@,
        path,
        number,
    ) by {
        if is_under(own_name, "_encode"@, path, number) {
            parts_are_named_apart(own_name, "_encode"@, path, rank, number);
        }
    }
    storing_adds_helpers_only(
        fields,
        slots,
        class_name,
        source,
        storage,
        base_offset,
        path,
        codec_class,
        index + 1,
        code,
        defs,
        more,
        own_name,
    );
    assert forall|name: Text, number: nat|
        number >= 0 && #[trigger] is_under(name, "_encode"@, field_path, number)
            && inner.contains_key(name) implies all.contains_key(name) && all[name]
        == inner[name] by {
        nested_is_under(name, "_encode"@, path, rank, number);
        assert forall|later: nat| later >= rank + 1 implies !#[trigger] is_under(
            name,
            "_encode"@,
            path,
            later,
        ) by {
            if is_under(name, "_encode"@, path, later) {
                parts_are_named_apart(name, "_encode"@, path, rank, later);
            }
        }
        storing_adds_helpers_only(
            fields,
            slots,
            class_name,
            source,
            storage,
            base_offset,
            path,
            codec_class,
            index + 1,
            code,
            defs,
            more,
            name,
        );
        assert(out.contains_key(name));
    }
}

/// Storing a part puts its bytes into the array, in place or through the helpers of its parts.
#[verifier::rlimit(60)]
proof fn split_value_is_stored(
    ty: RustType,
    value: Value,
    source_name: Text,
    bytes_var: Text,
    objects_var: Text,
    base_offset: usize,
    path: Text,
    codec_class: Text,
    code: CodeModel,
    defs: DefinitionsModel,
    methods: Methods,
    all: Methods,
    from: nat,
    first: Machine,
    m: Machine,
    depth: nat,
) -> (n: Machine)
    requires
        from <= code.instructions.len(),
        is_plain(ty, defs, m.classes),
        fits(ty, value),
        full_value(m, variable(source_name, lowered(ty))) == Some(value),
        !is_later(source_name, code.temps),
        m.arrays.contains_key(bytes_var),
        base_offset + bytes_of(ty) <= m.arrays[bytes_var].len() <= i32::MAX,
        code.temps + temps_needed(ty) <= usize::MAX,
        calls_needed(ty) <= depth,
    ensures
        ({
            let (after, defs1, out, outcome) = split_ty_stored(
                ty,
                variable(source_name, lowered(ty)),
                storage_at_start(bytes_var, objects_var),
                base_offset,
                path,
                codec_class,
                code,
                defs,
                methods,
            );
            &&& outcome is Ok
            &&& defs1 == defs
            &&& run(all, codec_class, first, code.instructions, from, depth) == Some(m)
                && are_there(all, out, "_encode"@, path, 0) ==> run(
                all,
                codec_class,
                first,
                after.instructions,
                from,
                depth,
            ) == Some(n)
            &&& n.arrays == m.arrays.insert(
                bytes_var,
                image(ty, value, m.arrays[bytes_var], base_offset as int),
            )
            &&& n.classes == m.classes
        }),
    decreases ty, 5nat, 0nat,
{
    let source = variable(source_name, lowered(ty));
    let storage = storage_at_start(bytes_var, objects_var);
    plain_type_is_known(ty, value, defs, m.classes);
    if is_split_type(ty, defs) {
        reveal_with_fuel(lowered, 2);
        match ty.kind {
            TypeKind::Tuple { class_name, elements } => split_parts_are_stored(
                slots_of_fields(SlotNames::Elements, class_name@, elements@, defs),
                class_name@,
                elements@,
                bytes_of(ty),
                value,
                0,
                source_name,
                bytes_var,
                objects_var,
                base_offset,
                path,
                codec_class,
                code,
                defs,
                methods,
                all,
                from,
                first,
                m,
                depth,
            ),
            TypeKind::Closure { class_name, captures, .. } => split_parts_are_stored(
                slots_of_fields(SlotNames::Captures, class_name@, captures@, defs),
                class_name@,
                captures@,
                bytes_of(ty),
                value,
                0,
                source_name,
                bytes_var,
                objects_var,
                base_offset,
                path,
                codec_class,
                code,
                defs,
                methods,
                all,
                from,
                first,
                m,
                depth,
            ),
            TypeKind::Adt(adt) => split_parts_are_stored(
                slots_of_fields(
                    SlotNames::Declared,
                    adt.class_name@,
                    adt.variants@[0].fields@,
                    defs,
                ),
                adt.class_name@,
                adt.variants@[0].fields@,
                bytes_of(ty),
                value,
                0,
                source_name,
                bytes_var,
                objects_var,
                base_offset,
                path,
                codec_class,
                code,
                defs,
                methods,
                all,
                from,
                first,
                m,
                depth,
            ),
            _ => m,
        }
    } else {
        let middle = code.instructions.len();
        let n = value_is_stored(
            ty,
            value,
            source,
            storage,
            base_offset,
            code,
            defs,
            middle,
            m,
            m,
            0,
        );
        classes_are_kept(m, n, code.temps);
        let after = stored(ty, source, storage, base_offset, code, defs).0;
        assert(after.instructions.take(middle as int) =~= code.instructions);
        if run(all, codec_class, first, code.instructions, from, depth) == Some(m) {
            run_goes_on(
                all,
                codec_class,
                first,
                m,
                after.instructions,
                from,
                middle,
                depth,
            );
        }
        n
    }
}

/// Whether the parts of a part have helpers of their own.
pub open spec fn is_split_type(ty: RustType, defs: DefinitionsModel) -> bool {
    match ty.kind {
        TypeKind::Tuple { class_name, elements } => is_split(
            slots_of_fields(SlotNames::Elements, class_name@, elements@, defs),
        ),
        TypeKind::Closure { class_name, captures, .. } => is_split(
            slots_of_fields(SlotNames::Captures, class_name@, captures@, defs),
        ),
        TypeKind::Adt(adt) => is_laid_out_struct(adt) && is_split(
            slots_of_fields(
                SlotNames::Declared,
                adt.class_name@,
                adt.variants@[0].fields@,
                defs,
            ),
        ),
        _ => false,
    }
}

} // verus!
