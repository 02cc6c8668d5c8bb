//! Variants of enums come back from the bytes of a union.
use crate::code::{
    CodeModel, DefinitionsModel, block_put, branches, class, emit, empty_code, fresh, i64_value,
    no_blocks, returns_nothing, returns_value, single_block, switches, temp_name, tests_equality,
    typed0, value_appended, variable,
};
use crate::enum_codec::{
    TagChoice, check_label, direct_tags, enum_dispatch, enum_reader_method, narrow_dispatch, niche_tags,
    stored_variant_tag, switch_targets, tag_dispatch, tag_to_store, variant_blocks, variant_count,
    variant_label, variant_temps, variant_writer, wide_checks, wide_sum,
};
use crate::enum_laws::{
    masked_is_the_remainder, switch_finds, switched, tags_differ, values_of_size,
    variant_labels_differ,
};
use crate::execution::{
    Machine, Value, decimal_is_digits, executed, full_value, is_later, kept, settled_for_longer,
    value_is_kept, value_of,
};
use crate::layout::{
    SlotModel, SlotNames, slot_at, slots_of_fields, slots_of_variant, valued_before,
};
use crate::load::{loaded, loaded_adt, loaded_aggregate, loaded_fields, loaded_thin};
use crate::lowering::defined_fields;
use crate::oomir::{
    BasicBlockModel, CodeBlockModel, ConstantModel, InstructionModel, OperandModel, Text, Type,
    TypeModel,
};
use crate::pointer_codec::fat_codec;
use crate::round_trip::{
    bits_are_loaded, bits_are_stored, low_bytes, number_at, number_is_put_together,
    wide_number_at, wide_number_is_stored, with_number, with_wide_number,
};
use crate::rust_type::{Adt, Field, RustType, TypeKind, Variant, VariantLayout, is_dynamic, lowered};
use crate::scalar::loaded_scalar;
use crate::scalar_trip::is_plain_number;
use crate::store::stored_fields;
use crate::text::decimal_text;
use crate::union_storage::{
    UnionStorageModel, loaded_bits, loaded_tag, low_half, masked, offset_sum, storage_at,
    wide_constant,
};
use crate::value_bytes::{
    agree, bytes_of, has_plain_parts, image_from, image_of_parts_is_local, image_shows_the_parts,
    is_plain, is_valued, parts_fit, parts_show, showing_is_local, shows,
};
use crate::value_trip::{aggregate_is_loaded, parts_are_stored, temps_needed_from};
use vstd::prelude::*;
use vstd::string::*;

verus! {

/// The class of a variant.
pub open spec fn class_of_variant(enum_class: Text, variant: Variant) -> Text {
    enum_class + "$"@ + variant.name@
}

/// Whether the parts of a variant are defined, plain and lie apart inside an enum of a size.
pub open spec fn is_plain_variant(
    variant: Variant,
    enum_class: Text,
    size: usize,
    defs: DefinitionsModel,
    classes: Map<Text, Seq<Text>>,
) -> bool {
    &&& defined_fields(variant.fields@, 0, defs) == defs
    &&& has_plain_parts(
        slots_of_variant(variant.fields@),
        class_of_variant(enum_class, variant),
        variant.fields@,
        size,
        defs,
        classes,
    )
}

/// Whether a tag lies inside an enum of a size and apart from the parts of a variant.
pub open spec fn tag_lies_apart(
    fields: Seq<Field>,
    offset: usize,
    tag_size: usize,
    size: usize,
) -> bool {
    &&& offset + tag_size <= size
    &&& forall|j: int|
        0 <= j < fields.len() && is_valued(#[trigger] fields[j]) ==> fields[j].offset + bytes_of(
            fields[j].ty,
        ) <= offset || offset + tag_size <= fields[j].offset
}

/// An array with the tag of a variant, if it has one.
pub open spec fn with_tag(bytes: Seq<u8>, at: int, tag: TagChoice) -> Seq<u8> {
    match tag {
        Some(place) => if place.size == 16 {
            with_wide_number(bytes, at + place.offset, place.value, 16)
        } else {
            with_number(
                bytes,
                at + place.offset,
                low_half(place.value) as u64,
                place.size as int,
            )
        },
        None => bytes,
    }
}

/// The number in the bytes of a tag.
pub open spec fn tag_at(bytes: Seq<u8>, start: int, size: usize) -> u128 {
    if size == 16 {
        wide_number_at(bytes, start)
    } else {
        number_at(bytes, start, size as nat) as u128
    }
}

/// The point at which a method that goes on at a block returns, and what it returns; nothing where
/// it fails or goes through more blocks than given.
pub open spec fn returned(m: Machine, body: CodeBlockModel, label: Text, blocks: nat) -> Option<
    (Machine, Option<OperandModel>),
>
    decreases blocks,
{
    if blocks == 0 || !body.basic_blocks.contains_key(label) {
        None
    } else {
        let list = body.basic_blocks[label].instructions;
        if list.len() == 0 {
            None
        } else {
            match executed(m, list.drop_last(), 0) {
                None => None,
                Some(n) => match list.last() {
                    InstructionModel::Return { operand } => Some((n, operand)),
                    InstructionModel::Jump { target } => returned(
                        n,
                        body,
                        target,
                        (blocks - 1) as nat,
                    ),
                    InstructionModel::Switch { discr, targets, otherwise } => match value_of(
                        n,
                        discr,
                    ) {
                        None => None,
                        Some(x) => returned(
                            n,
                            body,
                            switched(targets, x as i64, otherwise),
                            (blocks - 1) as nat,
                        ),
                    },
                    _ => None,
                },
            }
        }
    }
}

/// What a method gives back, if it returns a value after at most a number of blocks.
pub open spec fn answer(m: Machine, body: CodeBlockModel, blocks: nat) -> Option<Value> {
    match returned(m, body, body.entry, blocks) {
        Some((n, Some(operand))) => full_value(n, operand),
        _ => None,
    }
}

/// Names of one or two characters are never those of temporaries.
pub proof fn short_names_are_settled(name: Text, temps: usize)
    requires
        name.len() <= 2,
    ensures
        !is_later(name, temps),
{
    reveal_strlit("_");
    reveal(is_later);
    if is_later(name, temps) {
        let (p, k) = choose|p: Text, k: usize|
            p.len() > 0 && k >= temps && name == #[trigger] temp_name(p, k);
        decimal_is_digits(k as nat);
        assert(temp_name(p, k).len() == p.len() + 1 + decimal_text(k as nat).len());
    }
}

/// The code that loads a plain value can always be made.
pub proof fn loading_can_be_made(
    ty: RustType,
    storage: UnionStorageModel,
    base_offset: usize,
    code: CodeModel,
    defs: DefinitionsModel,
    classes: Map<Text, Seq<Text>>,
)
    requires
        is_plain(ty, defs, classes),
    ensures
        loaded(ty, storage, base_offset, code, defs).1 == defs,
        loaded(ty, storage, base_offset, code, defs).2 is Ok,
    decreases ty, 1nat, 0nat,
{
    reveal_with_fuel(lowered, 2);
    if is_plain_number(ty) {
        reveal(loaded_scalar);
    } else {
        let size = bytes_of(ty);
        let thin = loaded_thin(ty, size, storage, base_offset, code, defs);
        assert(fat_codec(ty, defs) == (defs, None::<Text>));
        assert(loaded(ty, storage, base_offset, code, defs) == thin);
        match ty.kind {
            TypeKind::Tuple { class_name, elements } => {
                aggregate_loading_can_be_made(
                    slots_of_fields(SlotNames::Elements, class_name@, elements@, defs),
                    class_name@,
                    elements@,
                    size,
                    storage,
                    base_offset,
                    code,
                    defs,
                    classes,
                );
            },
            TypeKind::Closure { class_name, captures, .. } => {
                aggregate_loading_can_be_made(
                    slots_of_fields(SlotNames::Captures, class_name@, captures@, defs),
                    class_name@,
                    captures@,
                    size,
                    storage,
                    base_offset,
                    code,
                    defs,
                    classes,
                );
            },
            TypeKind::Adt(adt) => {
                assert(thin == loaded_adt(ty, adt, size, storage, base_offset, code, defs));
                aggregate_loading_can_be_made(
                    slots_of_fields(
                        SlotNames::Declared,
                        adt.class_name@,
                        adt.variants@[0].fields@,
                        defs,
                    ),
                    adt.class_name@,
                    adt.variants@[0].fields@,
                    size,
                    storage,
                    base_offset,
                    code,
                    defs,
                    classes,
                );
            },
            _ => {},
        }
    }
}

proof fn aggregate_loading_can_be_made(
    slots: Seq<Option<SlotModel>>,
    class_name: Text,
    fields: Seq<Field>,
    size: usize,
    storage: UnionStorageModel,
    base_offset: usize,
    code: CodeModel,
    defs: DefinitionsModel,
    classes: Map<Text, Seq<Text>>,
)
    requires
        has_plain_parts(slots, class_name, fields, size, defs, classes),
    ensures
        loaded_aggregate(fields, slots, class_name, storage, base_offset, code, defs).1 == defs,
        loaded_aggregate(fields, slots, class_name, storage, base_offset, code, defs).2 is Ok,
    decreases fields, 1nat, 0nat,
{
    parts_loading_can_be_made(
        slots,
        class_name,
        fields,
        size,
        0,
        storage,
        base_offset,
        code,
        defs,
        typed0(),
        classes,
    );
}

proof fn parts_loading_can_be_made(
    slots: Seq<Option<SlotModel>>,
    class_name: Text,
    fields: Seq<Field>,
    size: usize,
    index: nat,
    storage: UnionStorageModel,
    base_offset: usize,
    code: CodeModel,
    defs: DefinitionsModel,
    values: Seq<(OperandModel, TypeModel)>,
    classes: Map<Text, Seq<Text>>,
)
    requires
        has_plain_parts(slots, class_name, fields, size, defs, classes),
    ensures
        loaded_fields(fields, slots, storage, base_offset, index, code, defs, values).1 == defs,
        loaded_fields(fields, slots, storage, base_offset, index, code, defs, values).3 is Ok,
    decreases fields, 0nat, fields.len() - index,
{
    if index < fields.len() {
        let item = fields[index as int];
        assert(slot_at(slots, index as usize) == slots[index as int]);
        if is_valued(item) {
            let offset = offset_sum(base_offset, item.offset);
            let slot_ty = lowered(item.ty);
            loading_can_be_made(item.ty, storage, offset, code, defs, classes);
            let one = loaded(item.ty, storage, offset, code, defs);
            assert(!is_dynamic(item.ty));
            let more = value_appended(one.2->Ok_0, slot_ty, values);
            parts_loading_can_be_made(
                slots,
                class_name,
                fields,
                size,
                index + 1,
                storage,
                base_offset,
                one.0,
                defs,
                more,
                classes,
            );
        } else {
            parts_loading_can_be_made(
                slots,
                class_name,
                fields,
                size,
                index + 1,
                storage,
                base_offset,
                code,
                defs,
                values,
                classes,
            );
        }
    }
}

/// What the block that reads a variant does before it returns, and what it returns.
pub open spec fn reading_of_variant(
    variants: Seq<Variant>,
    enum_class: Text,
    i: int,
    defs: DefinitionsModel,
) -> (CodeModel, DefinitionsModel, Result<OperandModel, Text>) {
    loaded_aggregate(
        variants[i].fields@,
        slots_of_variant(variants[i].fields@),
        class_of_variant(enum_class, variants[i]),
        storage_at("_1"@, "_2"@, variable("_3"@, Type::I32)),
        0,
        empty_code(variant_temps(i as usize)),
        defs,
    )
}

/// The block that reads a variant.
pub open spec fn reading_block(
    variants: Seq<Variant>,
    enum_class: Text,
    i: int,
    defs: DefinitionsModel,
) -> Seq<InstructionModel> {
    let reading = reading_of_variant(variants, enum_class, i, defs);
    reading.0.instructions.push(returns_value(reading.2->Ok_0))
}

/// Whether all variants of an enum of a size are plain.
pub open spec fn are_plain_variants(
    variants: Seq<Variant>,
    enum_class: Text,
    size: usize,
    defs: DefinitionsModel,
    classes: Map<Text, Seq<Text>>,
) -> bool {
    &&& variants.len() <= usize::MAX
    &&& forall|v: int|
        0 <= v < variants.len() ==> is_plain_variant(
            #[trigger] variants[v],
            enum_class,
            size,
            defs,
            classes,
        )
}

proof fn reading_block_is_there(
    variants: Seq<Variant>,
    enum_class: Text,
    size: usize,
    from: nat,
    defs: DefinitionsModel,
    blocks: Map<Text, BasicBlockModel>,
    classes: Map<Text, Seq<Text>>,
    i: int,
)
    requires
        are_plain_variants(variants, enum_class, size, defs, classes),
        0 <= i < variants.len(),
        i < from ==> blocks.contains_key(variant_label(i as usize))
            && blocks[variant_label(i as usize)].instructions == reading_block(
            variants,
            enum_class,
            i,
            defs,
        ),
    ensures
        ({
            let (defs1, made, outcome) = variant_blocks(variants, enum_class, from, defs, blocks);
            &&& defs1 == defs
            &&& outcome is Ok
            &&& made.contains_key(variant_label(i as usize))
            &&& made[variant_label(i as usize)].instructions == reading_block(
                variants,
                enum_class,
                i,
                defs,
            )
        }),
    decreases variants.len() - from,
{
    if from < variants.len() {
        let item = variants[from as int];
        let reading = reading_of_variant(variants, enum_class, from as int, defs);
        aggregate_loading_can_be_made(
            slots_of_variant(item.fields@),
            class_of_variant(enum_class, item),
            item.fields@,
            size,
            storage_at("_1"@, "_2"@, variable("_3"@, Type::I32)),
            0,
            empty_code(variant_temps(from as usize)),
            defs,
            classes,
        );
        let list = reading_block(variants, enum_class, from as int, defs);
        let more = block_put(variant_label(from as usize), list, blocks);
        if i != from && variant_label(i as usize) == variant_label(from as usize) {
            variant_labels_differ(i as usize, from as usize);
        }
        reading_block_is_there(
            variants,
            enum_class,
            size,
            from + 1,
            defs,
            more,
            classes,
            i,
        );
        assert(variant_blocks(variants, enum_class, from, defs, blocks) == variant_blocks(
            variants,
            enum_class,
            from + 1,
            defs,
            more,
        ));
    }
}

/// The method that writes a variant puts the bytes of its parts and its tag into the array.
pub proof fn variant_is_written(
    variant: Variant,
    index: usize,
    layout: VariantLayout,
    enum_class: Text,
    size: usize,
    value: Value,
    defs: DefinitionsModel,
    m: Machine,
    start: u64,
) -> (n: Machine)
    requires
        is_plain_variant(variant, enum_class, size, defs, m.classes),
        parts_fit(class_of_variant(enum_class, variant), variant.fields@, value),
        tag_to_store(layout, variant, index) matches Ok(tag) && (tag matches Some(place)
            ==> (place.size <= 8 || place.size == 16) && place.offset + place.size <= size),
        m.objects.contains_key("_1"@),
        m.objects["_1"@] == value,
        m.numbers.contains_key("_4"@),
        m.numbers["_4"@] == start,
        m.arrays.contains_key("_2"@),
        start + size <= m.arrays["_2"@].len() <= i32::MAX,
        temps_needed_from(variant.fields@, 0) + 40 <= usize::MAX,
    ensures
        ({
            let (defs1, outcome) = variant_writer(variant, index, layout, enum_class, defs);
            let tag = tag_to_store(layout, variant, index)->Ok_0;
            let image = image_from(
                variant.fields@,
                value->parts,
                0,
                m.arrays["_2"@],
                start as int,
            );
            &&& defs1 == defs
            &&& outcome matches Ok(writer)
            &&& returned(m, writer.body, writer.body.entry, 1) == Some((n, None::<OperandModel>))
            &&& n.arrays == m.arrays.insert("_2"@, with_tag(image, start as int, tag))
        }),
{
    reveal_strlit("_1");
    reveal_strlit("_4");
    short_names_are_settled("_1"@, 0);
    short_names_are_settled("_4"@, 0);
    let fields = variant.fields@;
    let slots = slots_of_variant(fields);
    let class_name = class_of_variant(enum_class, variant);
    let storage = storage_at("_2"@, "_3"@, variable("_4"@, Type::I32));
    let source = variable("_1"@, class(class_name));
    let code0 = empty_code(0);
    let bytes = m.arrays["_2"@];
    let parts = stored_fields(fields, slots, class_name, source, storage, 0, 0, code0, defs);
    let m1 = parts_are_stored(
        slots,
        class_name,
        fields,
        size,
        value,
        0,
        source,
        storage,
        0,
        code0,
        defs,
        0,
        m,
        m,
        start,
    );
    let code1 = parts.0;
    let image = image_from(fields, value->parts, 0, bytes, start as int);
    image_of_parts_is_local(
        slots,
        class_name,
        fields,
        size,
        value->parts,
        0,
        bytes,
        start as int,
        defs,
        m.classes,
    );
    let tag = tag_to_store(layout, variant, index)->Ok_0;
    reveal(stored_variant_tag);
    let code2 = stored_variant_tag(tag, storage, code1);
    let n = match tag {
        None => m1,
        Some(place) => {
            value_is_kept(m, m1, 0, storage.base_offset);
            settled_for_longer(storage.base_offset, 0, code1.temps);
            if place.size == 16 {
                wide_number_is_stored(
                    place.value,
                    16,
                    storage,
                    place.offset,
                    code1,
                    0,
                    m,
                    m1,
                    start,
                )
            } else {
                let x = low_half(place.value);
                bits_are_stored(
                    i64_value(x),
                    Type::I64,
                    place.size as nat,
                    storage,
                    place.offset,
                    code1,
                    0,
                    m,
                    m1,
                    start,
                    x as u64,
                )
            }
        },
    };
    assert(n.arrays =~= m.arrays.insert("_2"@, with_tag(image, start as int, tag)));
    let list = code2.instructions.push(returns_nothing());
    assert(list.drop_last() =~= code2.instructions);
    let (defs1, outcome) = variant_writer(variant, index, layout, enum_class, defs);
    let body = outcome->Ok_0.body;
    assert(body == single_block(list));
    assert(body.basic_blocks[body.entry].instructions == list);
    n
}

/// A tag of at most eight bytes is what its bytes hold.
proof fn tag_is_a_number(value: u128, size: usize)
    requires
        size == 1 || size == 2 || size == 4 || size == 8,
    ensures
        low_half(masked(value, size)) as u64 == masked(value, size),
        low_half(masked(value, size)) as u64 as i64 == low_half(masked(value, size)),
        low_bytes(low_half(masked(value, size)) as u64, size as int) == low_half(
            masked(value, size),
        ) as u64,
{
    reveal_with_fuel(values_of_size, 9);
    masked_is_the_remainder(value, size);
    let tag = masked(value, size);
    let x = tag as i64 as u64;
    assert(tag < 0x1_0000_0000_0000_0000 ==> tag as i64 as u64 == tag && tag as i64 as u64 as i64
        == tag as i64) by (bit_vector);
    assert(x < 0x100 ==> x & (((1u64 << 8u64) - 1) as u64) == x) by (bit_vector);
    assert(x < 0x1_0000 ==> x & (((1u64 << 16u64) - 1) as u64) == x) by (bit_vector);
    assert(x < 0x1_0000_0000 ==> x & (((1u64 << 32u64) - 1) as u64) == x) by (bit_vector);
}

/// What is written with a tag beside the parts of a variant still shows these parts.
pub proof fn parts_show_beside_the_tag(
    variant: Variant,
    enum_class: Text,
    size: usize,
    value: Value,
    tag: TagChoice,
    bytes: Seq<u8>,
    at: int,
    defs: DefinitionsModel,
    classes: Map<Text, Seq<Text>>,
)
    requires
        is_plain_variant(variant, enum_class, size, defs, classes),
        parts_fit(class_of_variant(enum_class, variant), variant.fields@, value),
        0 <= at,
        at + size <= bytes.len(),
        tag matches Some(place) ==> tag_lies_apart(
            variant.fields@,
            place.offset,
            place.size,
            size,
        ),
    ensures
        ({
            let image = image_from(variant.fields@, value->parts, 0, bytes, at);
            &&& image.len() == bytes.len()
            &&& with_tag(image, at, tag).len() == bytes.len()
            &&& parts_show(variant.fields@, value->parts, with_tag(image, at, tag), at)
        }),
{
    let fields = variant.fields@;
    let slots = slots_of_variant(fields);
    let class_name = class_of_variant(enum_class, variant);
    let parts = value->parts;
    let image = image_from(fields, parts, 0, bytes, at);
    let written = with_tag(image, at, tag);
    image_of_parts_is_local(slots, class_name, fields, size, parts, 0, bytes, at, defs, classes);
    image_shows_the_parts(slots, class_name, fields, size, value, 0, bytes, at, defs, classes);
    assert forall|i: int| 0 <= i < fields.len() && is_valued(#[trigger] fields[i]) implies shows(
        fields[i].ty,
        parts[valued_before(fields, i as nat) as int],
        written,
        at + fields[i].offset,
    ) by {
        let item = fields[i];
        assert(agree(image, written, at + item.offset, at + item.offset + bytes_of(item.ty)));
        showing_is_local(
            item.ty,
            parts[valued_before(fields, i as nat) as int],
            image,
            written,
            at + item.offset,
            defs,
            classes,
        );
    }
}

/// Whether the tag of an enum, if it has one, is a number of one, two, four or eight bytes.
pub open spec fn has_small_tag(layout: VariantLayout) -> bool {
    match layout {
        VariantLayout::Direct { size, .. } => is_small(size),
        VariantLayout::Niche { size, .. } => is_small(size),
        _ => true,
    }
}

/// Whether a number of bytes is one, two, four or eight.
pub open spec fn is_small(size: usize) -> bool {
    size == 1 || size == 2 || size == 4 || size == 8
}

/// The comparisons of a 128-bit tag leave the blocks of the variants as they are.
proof fn checks_keep_the_blocks(
    comparisons: Seq<(u128, Text)>,
    from: nat,
    tag: OperandModel,
    otherwise: Text,
    code: CodeModel,
    blocks: Map<Text, BasicBlockModel>,
    i: usize,
)
    requires
        blocks.contains_key(variant_label(i)),
    ensures
        wide_checks(comparisons, from, tag, otherwise, code, blocks).contains_key(variant_label(i)),
        wide_checks(comparisons, from, tag, otherwise, code, blocks)[variant_label(i)]
            == blocks[variant_label(i)],
    decreases comparisons.len() - from,
{
    if from < comparisons.len() {
        let (value, target) = comparisons[from as int];
        let next = if from + 1 == comparisons.len() {
            otherwise
        } else {
            check_label(from + 1)
        };
        let list = check_code(code, tag, value, target, next);
        let (code1, _expected) = wide_constant(value, code);
        let (code2, _matches) = fresh(code1, "enum_u128_tag_matches"@);
        let more = block_put(check_label(from), list, blocks);
        reveal_strlit("wide_tag_check_");
        reveal_strlit("variant_");
        assert(check_label(from)[0] == 'w' && variant_label(i)[0] == 'v');
        checks_keep_the_blocks(
            comparisons,
            from + 1,
            tag,
            otherwise,
            empty_code(code2.temps),
            more,
            i,
        );
    }
}

/// The instructions of the block that compares a 128-bit tag with a number.
pub open spec fn check_code(
    code: CodeModel,
    tag: OperandModel,
    value: u128,
    target: Text,
    next: Text,
) -> Seq<InstructionModel> {
    let (code, expected) = wide_constant(value, code);
    let (code, matches) = fresh(code, "enum_u128_tag_matches"@);
    let code = emit(code, tests_equality(matches, tag, expected));
    emit(code, branches(variable(matches, Type::Boolean), target, next)).instructions
}

/// The code that chooses a variant leaves the blocks of the variants as they are.
proof fn choosing_keeps_the_blocks(
    variants: Seq<Variant>,
    layout: VariantLayout,
    enum_class: Text,
    blocks: Map<Text, BasicBlockModel>,
    i: usize,
)
    requires
        blocks.contains_key(variant_label(i)),
    ensures
        enum_dispatch(variants, layout, enum_class, blocks).0.contains_key(variant_label(i)),
        enum_dispatch(variants, layout, enum_class, blocks).0[variant_label(i)]
            == blocks[variant_label(i)],
{
    reveal(enum_dispatch);
    reveal(tag_dispatch);
    reveal(narrow_dispatch);
    reveal(crate::enum_codec::invalid_block);
    reveal_strlit("entry");
    reveal_strlit("invalid");
    reveal_strlit("variant_");
    reveal_strlit("wide_tag_check_");
    let label = variant_label(i);
    assert(label[0] == 'v');
    assert("entry"@[0] == 'e' && "invalid"@[0] == 'i');
    assert(check_label(0)[0] == 'w');
    let storage = storage_at("_1"@, "_2"@, variable("_3"@, Type::I32));
    match layout {
        VariantLayout::Direct { offset, size } => {
            let (code, tag) = loaded_tag(storage, offset, empty_code(0));
            let more = crate::enum_codec::invalid_block(enum_class, blocks);
            checks_keep_the_blocks(
                direct_tags(variants, size),
                0,
                tag,
                "invalid"@,
                code,
                more,
                i,
            );
        },
        VariantLayout::Niche {
            offset,
            size,
            untagged_variant,
            niche_start_variant,
            niche_end_variant,
            niche_start,
        } => {
            let (code, tag) = loaded_tag(storage, offset, empty_code(0));
            checks_keep_the_blocks(
                niche_tags(niche_start_variant, niche_end_variant, niche_start, size),
                0,
                tag,
                variant_label(untagged_variant as usize),
                code,
                blocks,
                i,
            );
        },
        _ => {},
    }
}

/// The block that reads a variant, from bytes that show its parts, gives the variant back.
pub proof fn block_reads_the_variant(
    adt: Adt,
    layout: VariantLayout,
    enum_class: Text,
    i: int,
    size: usize,
    value: Value,
    defs: DefinitionsModel,
    m: Machine,
    start: u64,
    blocks: nat,
)
    requires
        are_plain_variants(adt.variants@, enum_class, size, defs, m.classes),
        0 <= i < adt.variants@.len(),
        parts_fit(class_of_variant(enum_class, adt.variants@[i]), adt.variants@[i].fields@, value),
        m.numbers.contains_key("_3"@),
        m.numbers["_3"@] == start,
        m.arrays.contains_key("_1"@),
        start + size <= m.arrays["_1"@].len() <= i32::MAX,
        parts_show(adt.variants@[i].fields@, value->parts, m.arrays["_1"@], start as int),
        i * 10_000 + 1 + temps_needed_from(adt.variants@[i].fields@, 0) <= usize::MAX,
        blocks > 0,
    ensures
        ({
            let (defs1, outcome) = enum_reader_method(adt, layout, enum_class, defs);
            &&& defs1 == defs
            &&& outcome matches Ok(reader)
            &&& returned(
                m,
                reader.body,
                variant_label(i as usize),
                blocks,
            ) matches Some((n, operand))
            &&& operand matches Some(result)
            &&& full_value(n, result) == Some(value)
        }),
{
    reveal_strlit("_3");
    let variants = adt.variants@;
    let label = variant_label(i as usize);
    reading_block_is_there(variants, enum_class, size, 0, defs, no_blocks(), m.classes, i);
    let (defs1, outcome) = enum_reader_method(adt, layout, enum_class, defs);
    let body = outcome->Ok_0.body;
    let made = variant_blocks(variants, enum_class, 0, defs, no_blocks()).1;
    choosing_keeps_the_blocks(variants, layout, enum_class, made, i as usize);
    assert(body.basic_blocks == enum_dispatch(variants, layout, enum_class, made).0);
    let list = reading_block(variants, enum_class, i, defs);
    assert(body.basic_blocks[label].instructions == list);
    let code = empty_code(variant_temps(i as usize));
    let storage = storage_at("_1"@, "_2"@, variable("_3"@, Type::I32));
    short_names_are_settled("_3"@, code.temps);
    let item = variants[i];
    let n = aggregate_is_loaded(
        slots_of_variant(item.fields@),
        class_of_variant(enum_class, item),
        item.fields@,
        size,
        value,
        storage,
        0,
        code,
        defs,
        0,
        m,
        m,
        start,
    );
    let reading = reading_of_variant(variants, enum_class, i, defs);
    assert(list.drop_last() =~= reading.0.instructions);
    assert(list.last() == returns_value(reading.2->Ok_0));
}

/// The code that chooses a variant by a tag switches on the number that the bytes of the tag hold.
proof fn tag_is_read(
    offset: usize,
    tag_size: usize,
    tags: Seq<(u128, Text)>,
    otherwise: Text,
    blocks: Map<Text, BasicBlockModel>,
    m: Machine,
    start: u64,
) -> (n: Machine)
    requires
        is_small(tag_size),
        m.numbers.contains_key("_3"@),
        m.numbers["_3"@] == start,
        m.arrays.contains_key("_1"@),
        start + offset + tag_size <= m.arrays["_1"@].len() <= i32::MAX,
    ensures
        ({
            let storage = storage_at("_1"@, "_2"@, variable("_3"@, Type::I32));
            let (made, entry) = tag_dispatch(storage, offset, tag_size, tags, otherwise, blocks);
            let list = made[entry].instructions;
            let x = number_at(m.arrays["_1"@], start + offset, tag_size as nat);
            &&& made.contains_key(entry)
            &&& list.len() > 0
            &&& executed(m, list.drop_last(), 0) == Some(n)
            &&& list.last() matches InstructionModel::Switch { discr, targets, otherwise: other }
            &&& value_of(n, discr) == Some(x)
            &&& targets == switch_targets(tags)
            &&& other == otherwise
            &&& n.arrays == m.arrays
            &&& kept(m, n, 0)
        }),
{
    reveal(tag_dispatch);
    reveal(narrow_dispatch);
    reveal_strlit("_3");
    short_names_are_settled("_3"@, 0);
    let storage = storage_at("_1"@, "_2"@, variable("_3"@, Type::I32));
    let n = bits_are_loaded(
        Type::I64,
        tag_size as nat,
        storage,
        offset,
        empty_code(0),
        0,
        m,
        m,
        start,
    );
    let (code, tag) = loaded_bits(Type::I64, tag_size as nat, storage, offset, empty_code(0));
    let list = code.instructions.push(switches(tag, switch_targets(tags), otherwise));
    assert(list.drop_last() =~= code.instructions);
    n
}

/// Two numbers that differ by less than another one, but for multiples of it, have different
/// remainders by it, or are the same.
proof fn near_remainders_differ(x: int, y: int, a: int, b: int, wraps: int, rest: int, modulus: int)
    requires
        0 <= a < modulus,
        0 <= b < modulus,
        x - y == a - b + wraps * (rest * modulus),
        x % modulus == y % modulus,
    ensures
        a == b,
{
    vstd::arithmetic::div_mod::lemma_fundamental_div_mod(x, modulus);
    vstd::arithmetic::div_mod::lemma_fundamental_div_mod(y, modulus);
    let p = x / modulus;
    let q = y / modulus;
    let z = p - q - wraps * rest;
    assert(a - b == modulus * z) by (nonlinear_arith)
        requires
            x - y == a - b + wraps * (rest * modulus),
            x - y == modulus * p - modulus * q,
            z == p - q - wraps * rest,
    ;
    assert(a == b) by (nonlinear_arith)
        requires
            0 <= a < modulus,
            0 <= b < modulus,
            a - b == modulus * z,
    ;
}

/// Niche values that are not as far apart as a tag has values differ.
proof fn niche_values_differ(niche_start: u128, a: u32, b: u32, size: usize)
    requires
        is_small(size),
        a < values_of_size(size as nat),
        b < values_of_size(size as nat),
        masked(wide_sum(niche_start, a), size) == masked(wide_sum(niche_start, b), size),
    ensures
        a == b,
{
    let x = wide_sum(niche_start, a);
    let y = wide_sum(niche_start, b);
    reveal_with_fuel(values_of_size, 9);
    masked_is_the_remainder(x, size);
    masked_is_the_remainder(y, size);
    let modulus = values_of_size(size as nat) as int;
    let rest = if size == 1 {
        0x100_0000_0000_0000_0000_0000_0000_0000int
    } else if size == 2 {
        0x1_0000_0000_0000_0000_0000_0000_0000int
    } else if size == 4 {
        0x1_0000_0000_0000_0000_0000_0000int
    } else {
        0x1_0000_0000_0000_0000int
    };
    let x_wraps: int = if niche_start + a > u128::MAX {
        1
    } else {
        0
    };
    let y_wraps: int = if niche_start + b > u128::MAX {
        1
    } else {
        0
    };
    assert(rest * modulus == u128::MAX + 1);
    assert(x as int % modulus == y as int % modulus);
    near_remainders_differ(
        x as int,
        y as int,
        a as int,
        b as int,
        y_wraps - x_wraps,
        rest,
        modulus,
    );
}

/// Whether what is written of a variant tells which variant it is: the tag lies apart from the
/// parts, and no other variant has it. The variant without a tag must not hold, at the place of the
/// tag, the niche value of another one.
pub open spec fn tells_apart(
    variants: Seq<Variant>,
    layout: VariantLayout,
    i: int,
    size: usize,
    image: Seq<u8>,
    at: int,
) -> bool {
    match layout {
        VariantLayout::Empty => false,
        VariantLayout::Single { variant } => variant == i,
        VariantLayout::Direct { offset, size: tag_size } => {
            &&& tags_differ(variants, tag_size)
            &&& tag_lies_apart(variants[i].fields@, offset, tag_size, size)
        },
        VariantLayout::Niche {
            offset,
            size: tag_size,
            untagged_variant,
            niche_start_variant,
            niche_end_variant,
            niche_start,
        } => if i == untagged_variant {
            &&& offset + tag_size <= size
            &&& forall|k: int|
                0 <= k < variant_count(
                    niche_start_variant,
                    niche_end_variant,
                ) && niche_start_variant
                    + k != i ==> tag_at(image, at + offset, tag_size) != masked(
                    #[trigger] wide_sum(niche_start, k as u32),
                    tag_size,
                )
        } else {
            &&& niche_start_variant <= i <= niche_end_variant
            &&& niche_end_variant - niche_start_variant < values_of_size(tag_size as nat)
            &&& tag_lies_apart(variants[i].fields@, offset, tag_size, size)
        },
    }
}

/// The number in the bytes of the tag leads to the block of the variant that was written.
proof fn tag_leads_to_the_variant(
    variants: Seq<Variant>,
    layout: VariantLayout,
    i: int,
    size: usize,
    image: Seq<u8>,
    at: int,
    tags: Seq<(u128, Text)>,
    otherwise: Text,
    offset: usize,
    tag_size: usize,
)
    requires
        0 <= i < variants.len() <= usize::MAX,
        has_small_tag(layout),
        tells_apart(variants, layout, i, size, image, at),
        0 <= at,
        at + size <= image.len(),
        match layout {
            VariantLayout::Direct { offset: o, size: s } => {
                &&& o == offset
                &&& s == tag_size
                &&& tags == direct_tags(variants, s)
            },
            VariantLayout::Niche {
                offset: o,
                size: s,
                untagged_variant,
                niche_start_variant,
                niche_end_variant,
                niche_start,
            } => {
                &&& o == offset
                &&& s == tag_size
                &&& tags == niche_tags(niche_start_variant, niche_end_variant, niche_start, s)
                &&& otherwise == variant_label(untagged_variant as usize)
            },
            _ => false,
        },
    ensures
        tag_to_store(layout, variants[i], i as usize) is Ok,
        ({
            let tag = tag_to_store(layout, variants[i], i as usize)->Ok_0;
            let x = number_at(with_tag(image, at, tag), at + offset, tag_size as nat);
            switched(switch_targets(tags), x as i64, otherwise) == variant_label(i as usize)
        }),
{
    let tag = tag_to_store(layout, variants[i], i as usize)->Ok_0;
    let written = with_tag(image, at, tag);
    let x = number_at(written, at + offset, tag_size as nat);
    let targets = switch_targets(tags);
    let label = variant_label(i as usize);
    if tag is Some {
        let place = tag->0;
        let y = low_half(place.value) as u64;
        number_is_put_together(image, at + offset, y, tag_size as nat);
    }
    match layout {
        VariantLayout::Direct { .. } => {
            tag_is_a_number(variants[i].discriminant, tag_size);
            assert(x as i64 == low_half(tags[i].0));
            assert(targets[i].0 == ConstantModel::I64(x as i64));
            assert forall|k: int|
                0 <= k < targets.len() && #[trigger] targets[k].0 == ConstantModel::I64(
                    x as i64,
                ) implies targets[k].1 == label by {
                tag_is_a_number(variants[k].discriminant, tag_size);
                if i < k {
                    assert(masked(variants[i].discriminant, tag_size) != masked(
                        variants[k].discriminant,
                        tag_size,
                    ));
                } else if k < i {
                    assert(masked(variants[k].discriminant, tag_size) != masked(
                        variants[i].discriminant,
                        tag_size,
                    ));
                }
            }
            switch_finds(targets, x as i64, otherwise, label);
        },
        VariantLayout::Niche { untagged_variant, niche_start_variant, niche_start, .. } => {
            if i == untagged_variant {
                assert forall|k: int|
                    0 <= k < targets.len() && #[trigger] targets[k].0 == ConstantModel::I64(
                        x as i64,
                    ) implies targets[k].1 == label by {
                    let sum = wide_sum(niche_start, k as u32);
                    tag_is_a_number(sum, tag_size);
                    assert(x as i64 as u64 == x) by (bit_vector);
                }
                switch_finds(targets, x as i64, otherwise, label);
            } else {
                let k0 = i - niche_start_variant;
                tag_is_a_number(wide_sum(niche_start, k0 as u32), tag_size);
                assert(targets[k0].0 == ConstantModel::I64(x as i64));
                assert forall|k: int|
                    0 <= k < targets.len() && #[trigger] targets[k].0 == ConstantModel::I64(
                        x as i64,
                    ) implies targets[k].1 == label by {
                    tag_is_a_number(wide_sum(niche_start, k as u32), tag_size);
                    niche_values_differ(niche_start, k as u32, k0 as u32, tag_size);
                }
                switch_finds(targets, x as i64, otherwise, label);
            }
        },
        _ => {},
    }
}

/// A variant that the writer of an enum put into an array is what the reader of the enum gives
/// back from there. It holds of variants whose parts are plain, of enums whose tag has at most
/// eight bytes, and of every place in the array. A tag of sixteen bytes is read and compared by
/// methods of the runtime, which are not part of this library; what holds there is said by
/// [`written_wide_variant_is_read`](crate::wide_tag_trip::written_wide_variant_is_read).
pub proof fn written_variant_is_read(
    adt: Adt,
    layout: VariantLayout,
    enum_class: Text,
    i: int,
    size: usize,
    value: Value,
    defs: DefinitionsModel,
    m: Machine,
    r: Machine,
    start: u64,
) -> (n: Machine)
    requires
        are_plain_variants(adt.variants@, enum_class, size, defs, m.classes),
        0 <= i < adt.variants@.len(),
        has_small_tag(layout),
        parts_fit(class_of_variant(enum_class, adt.variants@[i]), adt.variants@[i].fields@, value),
        m.objects.contains_key("_1"@),
        m.objects["_1"@] == value,
        m.numbers.contains_key("_4"@),
        m.numbers["_4"@] == start,
        m.arrays.contains_key("_2"@),
        start + size <= m.arrays["_2"@].len() <= i32::MAX,
        tells_apart(
            adt.variants@,
            layout,
            i,
            size,
            image_from(
                adt.variants@[i].fields@,
                value->parts,
                0,
                m.arrays["_2"@],
                start as int,
            ),
            start as int,
        ),
        r.classes == m.classes,
        r.numbers.contains_key("_3"@),
        r.numbers["_3"@] == start,
        i * 10_000 + 40 + temps_needed_from(adt.variants@[i].fields@, 0) <= usize::MAX,
    ensures
        ({
            let (defs1, written) = variant_writer(
                adt.variants@[i],
                i as usize,
                layout,
                enum_class,
                defs,
            );
            let (defs2, read) = enum_reader_method(adt, layout, enum_class, defs);
            let bytes = n.arrays["_2"@];
            &&& defs1 == defs
            &&& written matches Ok(writer)
            &&& returned(m, writer.body, writer.body.entry, 1) == Some((n, None::<OperandModel>))
            &&& defs2 == defs
            &&& read matches Ok(reader)
            &&& answer(
                Machine { arrays: r.arrays.insert("_1"@, bytes), ..r },
                reader.body,
                2,
            ) == Some(
                value,
            )
        }),
{
    let variants = adt.variants@;
    let item = variants[i];
    let bytes = m.arrays["_2"@];
    let at = start as int;
    let image = image_from(item.fields@, value->parts, 0, bytes, at);
    image_of_parts_is_local(
        slots_of_variant(item.fields@),
        class_of_variant(enum_class, item),
        item.fields@,
        size,
        value->parts,
        0,
        bytes,
        at,
        defs,
        m.classes,
    );
    match layout {
        VariantLayout::Direct { offset, size: tag_size } => {
            tag_leads_to_the_variant(
                variants,
                layout,
                i,
                size,
                image,
                at,
                direct_tags(variants, tag_size),
                "invalid"@,
                offset,
                tag_size,
            );
        },
        VariantLayout::Niche {
            offset,
            size: tag_size,
            untagged_variant,
            niche_start_variant,
            niche_end_variant,
            niche_start,
        } => {
            tag_leads_to_the_variant(
                variants,
                layout,
                i,
                size,
                image,
                at,
                niche_tags(niche_start_variant, niche_end_variant, niche_start, tag_size),
                variant_label(untagged_variant as usize),
                offset,
                tag_size,
            );
        },
        _ => {},
    }
    let n = variant_is_written(item, i as usize, layout, enum_class, size, value, defs, m, start);
    let tag = tag_to_store(layout, item, i as usize)->Ok_0;
    let there = with_tag(image, at, tag);
    parts_show_beside_the_tag(
        item,
        enum_class,
        size,
        value,
        tag,
        bytes,
        at,
        defs,
        m.classes,
    );
    let q = Machine { arrays: r.arrays.insert("_1"@, there), ..r };
    variant_is_chosen_and_read(adt, layout, enum_class, i, size, value, defs, q, start, image);
    n
}

/// The reader of an enum gives the variant back whose parts and tag stand in an array.
proof fn variant_is_chosen_and_read(
    adt: Adt,
    layout: VariantLayout,
    enum_class: Text,
    i: int,
    size: usize,
    value: Value,
    defs: DefinitionsModel,
    q: Machine,
    start: u64,
    image: Seq<u8>,
)
    requires
        are_plain_variants(adt.variants@, enum_class, size, defs, q.classes),
        0 <= i < adt.variants@.len(),
        has_small_tag(layout),
        parts_fit(class_of_variant(enum_class, adt.variants@[i]), adt.variants@[i].fields@, value),
        start + size <= image.len() <= i32::MAX,
        tells_apart(adt.variants@, layout, i, size, image, start as int),
        q.numbers.contains_key("_3"@),
        q.numbers["_3"@] == start,
        q.arrays.contains_key("_1"@),
        tag_to_store(layout, adt.variants@[i], i as usize) matches Ok(tag) && q.arrays["_1"@]
            == with_tag(image, start as int, tag),
        parts_show(adt.variants@[i].fields@, value->parts, q.arrays["_1"@], start as int),
        i * 10_000 + 1 + temps_needed_from(adt.variants@[i].fields@, 0) <= usize::MAX,
    ensures
        ({
            let (defs2, read) = enum_reader_method(adt, layout, enum_class, defs);
            &&& defs2 == defs
            &&& read matches Ok(reader)
            &&& answer(q, reader.body, 2) == Some(value)
        }),
{
    let variants = adt.variants@;
    let at = start as int;
    block_reads_the_variant(
        adt,
        layout,
        enum_class,
        i,
        size,
        value,
        defs,
        q,
        start,
        2,
    );
    let body = enum_reader_method(adt, layout, enum_class, defs).1->Ok_0.body;
    let made = variant_blocks(variants, enum_class, 0, defs, no_blocks()).1;
    assert((body.basic_blocks, body.entry) == enum_dispatch(variants, layout, enum_class, made));
    reveal(enum_dispatch);
    reveal_strlit("_3");
    short_names_are_settled("_3"@, 0);
    let p = match layout {
        VariantLayout::Direct { offset, size: tag_size } => {
            let tags = direct_tags(variants, tag_size);
            tag_leads_to_the_variant(
                variants,
                layout,
                i,
                size,
                image,
                at,
                tags,
                "invalid"@,
                offset,
                tag_size,
            );
            let more = crate::enum_codec::invalid_block(enum_class, made);
            tag_is_read(offset, tag_size, tags, "invalid"@, more, q, start)
        },
        VariantLayout::Niche {
            offset,
            size: tag_size,
            untagged_variant,
            niche_start_variant,
            niche_end_variant,
            niche_start,
        } => {
            let tags = niche_tags(niche_start_variant, niche_end_variant, niche_start, tag_size);
            let otherwise = variant_label(untagged_variant as usize);
            tag_leads_to_the_variant(
                variants,
                layout,
                i,
                size,
                image,
                at,
                tags,
                otherwise,
                offset,
                tag_size,
            );
            tag_is_read(offset, tag_size, tags, otherwise, made, q, start)
        },
        _ => q,
    };
    if !(layout is Single) {
        reveal(kept);
        block_reads_the_variant(
            adt,
            layout,
            enum_class,
            i,
            size,
            value,
            defs,
            p,
            start,
            1,
        );
        assert(returned(q, body, body.entry, 2) == returned(p, body, variant_label(i as usize), 1));
    }
}

} // verus!
