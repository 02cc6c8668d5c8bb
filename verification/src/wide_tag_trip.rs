//! Variants of enums with a tag of sixteen bytes come back from the bytes of a union.
use crate::code::{
    CodeModel, DefinitionsModel, block_put, empty_code, fresh, no_blocks, variable,
};
use crate::enum_codec::{
    check_label, direct_tags, enum_dispatch, enum_reader_method, invalid_block, niche_tags,
    tag_dispatch, tag_to_store, variant_blocks, variant_label, variant_writer, wide_checks,
    wide_dispatch, wide_sum,
};
use crate::enum_laws::masked_is_the_remainder;
use crate::enum_trip::{
    are_plain_variants, block_reads_the_variant, check_code, class_of_variant,
    parts_show_beside_the_tag, returned, tag_at, tells_apart, variant_is_written, with_tag,
};
use crate::execution::{Machine, Value, decimals_differ, full_value};
use crate::oomir::{BasicBlockModel, InstructionModel, OperandModel, Text, Type};
use crate::round_trip::{wide_number_at, wide_number_is_put_together};
use crate::rust_type::{Adt, Variant, VariantLayout};
use crate::text::decimal_text;
use crate::union_storage::{loaded_tag, storage_at, wide_constant};
use crate::value_bytes::{image_from, image_of_parts_is_local, parts_fit};
use crate::value_trip::temps_needed_from;
use vstd::prelude::*;
use vstd::string::*;

verus! {

/// Whether an enum has a tag of sixteen bytes.
pub open spec fn has_wide_tag(layout: VariantLayout) -> bool {
    match layout {
        VariantLayout::Direct { size, .. } => size == 16,
        VariantLayout::Niche { size, .. } => size == 16,
        _ => false,
    }
}

/// Where the tag of an enum stands.
pub open spec fn tag_offset(layout: VariantLayout) -> usize {
    match layout {
        VariantLayout::Direct { offset, .. } => offset,
        VariantLayout::Niche { offset, .. } => offset,
        _ => 0,
    }
}

/// The tags of an enum with the labels of the blocks of their variants.
pub open spec fn tags_of(variants: Seq<Variant>, layout: VariantLayout) -> Seq<(u128, Text)> {
    match layout {
        VariantLayout::Direct { size, .. } => direct_tags(variants, size),
        VariantLayout::Niche {
            size,
            niche_start_variant,
            niche_end_variant,
            niche_start,
            ..
        } => niche_tags(niche_start_variant, niche_end_variant, niche_start, size),
        _ => Seq::empty(),
    }
}

/// Where a tag leads that none of the tags of an enum is.
pub open spec fn other_label(layout: VariantLayout) -> Text {
    match layout {
        VariantLayout::Niche { untagged_variant, .. } => variant_label(untagged_variant as usize),
        _ => "invalid"@,
    }
}

/// The label behind a comparison that fails.
pub open spec fn next_check(tags: Seq<(u128, Text)>, k: int, otherwise: Text) -> Text {
    if k + 1 == tags.len() {
        otherwise
    } else {
        check_label((k + 1) as nat)
    }
}

/// Whether a block compares a tag with a number and goes on by the answer.
#[verifier::opaque]
pub open spec fn is_check(
    list: Seq<InstructionModel>,
    tag: OperandModel,
    value: u128,
    target: Text,
    next: Text,
) -> bool {
    exists|code: CodeModel| #[trigger] check_code(code, tag, value, target, next) == list
}

/// Whether a comparison of a tag has its block.
#[verifier::opaque]
pub open spec fn check_is_there(
    tags: Seq<(u128, Text)>,
    k: int,
    tag: OperandModel,
    otherwise: Text,
    blocks: Map<Text, BasicBlockModel>,
) -> bool {
    &&& blocks.contains_key(check_label(k as nat))
    &&& is_check(
        blocks[check_label(k as nat)].instructions,
        tag,
        tags[k].0,
        tags[k].1,
        next_check(tags, k, otherwise),
    )
}

/// Whether each of the comparisons of a tag from one on has its block.
pub open spec fn checks_are_there(
    tags: Seq<(u128, Text)>,
    from: nat,
    tag: OperandModel,
    otherwise: Text,
    blocks: Map<Text, BasicBlockModel>,
) -> bool {
    forall|k: int|
        from <= k < tags.len() ==> #[trigger] check_is_there(tags, k, tag, otherwise, blocks)
}

/// Where comparisons with the given answers lead, from a block on.
pub open spec fn route(
    blocks: Map<Text, BasicBlockModel>,
    label: Text,
    answers: Seq<bool>,
) -> Text
    decreases answers.len(),
{
    if answers.len() == 0 {
        label
    } else {
        match blocks[label].instructions.last() {
            InstructionModel::Branch { true_block, false_block, .. } => if answers[0] {
                true_block
            } else {
                route(blocks, false_block, answers.skip(1))
            },
            _ => label,
        }
    }
}

/// Whether a number is each of the tags.
pub open spec fn answers(tags: Seq<(u128, Text)>, x: u128) -> Seq<bool> {
    Seq::new(tags.len(), |k: int| tags[k].0 == x)
}

/// Where a number leads as a tag: each comparison answers whether the number is the one that it
/// compares with.
pub open spec fn led_to(
    blocks: Map<Text, BasicBlockModel>,
    tags: Seq<(u128, Text)>,
    x: u128,
) -> Text {
    if tags.len() == 0 {
        match blocks[check_label(0)].instructions.last() {
            InstructionModel::Jump { target } => target,
            _ => check_label(0),
        }
    } else {
        route(blocks, check_label(0), answers(tags, x))
    }
}

/// The comparisons of a tag leave other blocks as they are.
proof fn checks_keep(
    tags: Seq<(u128, Text)>,
    from: nat,
    tag: OperandModel,
    otherwise: Text,
    code: CodeModel,
    blocks: Map<Text, BasicBlockModel>,
    k: nat,
)
    requires
        k < from,
        blocks.contains_key(check_label(k)),
    ensures
        wide_checks(tags, from, tag, otherwise, code, blocks).contains_key(check_label(k)),
        wide_checks(tags, from, tag, otherwise, code, blocks)[check_label(k)]
            == blocks[check_label(k)],
    decreases tags.len() - from,
{
    if from < tags.len() {
        let (value, target) = tags[from as int];
        let list = check_code(code, tag, value, target, next_check(tags, from as int, otherwise));
        let (code1, _expected) = wide_constant(value, code);
        let (code2, _matches) = fresh(code1, "enum_u128_tag_matches"@);
        let more = block_put(check_label(from), list, blocks);
        check_labels_differ(k, from);
        checks_keep(tags, from + 1, tag, otherwise, empty_code(code2.temps), more, k);
    }
}

proof fn check_labels_differ(j: nat, k: nat)
    requires
        j != k,
    ensures
        check_label(j) != check_label(k),
{
    let n = "wide_tag_check_"@.len() as int;
    assert(check_label(j).skip(n) =~= decimal_text(j));
    assert(check_label(k).skip(n) =~= decimal_text(k));
    if check_label(j) == check_label(k) {
        decimals_differ(j, k);
    }
}

/// Each comparison of a tag has its block.
proof fn checks_are_made(
    tags: Seq<(u128, Text)>,
    from: nat,
    tag: OperandModel,
    otherwise: Text,
    code: CodeModel,
    blocks: Map<Text, BasicBlockModel>,
)
    requires
        from < tags.len(),
    ensures
        ({
            let made = wide_checks(tags, from, tag, otherwise, code, blocks);
            &&& checks_are_there(tags, from, tag, otherwise, made)
            &&& made[check_label(from)].instructions == check_code(
                code,
                tag,
                tags[from as int].0,
                tags[from as int].1,
                next_check(tags, from as int, otherwise),
            )
        }),
    decreases tags.len() - from,
{
    let (value, target) = tags[from as int];
    let next = next_check(tags, from as int, otherwise);
    let list = check_code(code, tag, value, target, next);
    let (code1, _expected) = wide_constant(value, code);
    let (code2, _matches) = fresh(code1, "enum_u128_tag_matches"@);
    let more = block_put(check_label(from), list, blocks);
    let after = empty_code(code2.temps);
    let made = wide_checks(tags, from, tag, otherwise, code, blocks);
    assert(made == wide_checks(tags, from + 1, tag, otherwise, after, more));
    checks_keep(tags, from + 1, tag, otherwise, after, more, from);
    assert(check_is_there(tags, from as int, tag, otherwise, made)) by {
        reveal(is_check);
        reveal(check_is_there);
    }
    if from + 1 < tags.len() {
        checks_are_made(tags, from + 1, tag, otherwise, after, more);
    }
}

/// The blocks of an enum with a tag of sixteen bytes compare the number that is read from there
/// with each of its tags.
proof fn tag_is_compared(
    variants: Seq<Variant>,
    layout: VariantLayout,
    enum_class: Text,
    blocks: Map<Text, BasicBlockModel>,
)
    requires
        has_wide_tag(layout),
    ensures
        ({
            let (made, entry) = enum_dispatch(variants, layout, enum_class, blocks);
            let tags = tags_of(variants, layout);
            let storage = storage_at("_1"@, "_2"@, variable("_3"@, Type::I32));
            let (code, tag) = loaded_tag(storage, tag_offset(layout), empty_code(0));
            let otherwise = other_label(layout);
            &&& entry == check_label(0)
            &&& checks_are_there(tags, 0, tag, otherwise, made)
            &&& tags.len() > 0 ==> made[entry].instructions == check_code(
                code,
                tag,
                tags[0].0,
                tags[0].1,
                next_check(tags, 0, otherwise),
            )
            &&& tags.len() == 0 ==> made[entry].instructions.last() == (InstructionModel::Jump {
                target: otherwise,
            })
        }),
{
    reveal(enum_dispatch);
    reveal(tag_dispatch);
    let tags = tags_of(variants, layout);
    let storage = storage_at("_1"@, "_2"@, variable("_3"@, Type::I32));
    let (code, tag) = loaded_tag(storage, tag_offset(layout), empty_code(0));
    let otherwise = other_label(layout);
    let before = if layout is Direct {
        invalid_block(enum_class, blocks)
    } else {
        blocks
    };
    assert(enum_dispatch(variants, layout, enum_class, blocks) == wide_dispatch(
        storage,
        tag_offset(layout),
        tags,
        otherwise,
        before,
    ));
    if tags.len() > 0 {
        checks_are_made(tags, 0, tag, otherwise, code, before);
    }
}

/// Comparisons that answer whether a number is the one that they compare with lead to the block of
/// the tag that the number is.
proof fn route_finds(
    tags: Seq<(u128, Text)>,
    from: nat,
    tag: OperandModel,
    otherwise: Text,
    blocks: Map<Text, BasicBlockModel>,
    x: u128,
    label: Text,
)
    requires
        from < tags.len(),
        checks_are_there(tags, from, tag, otherwise, blocks),
        forall|k: int| from <= k < tags.len() && (#[trigger] tags[k]).0 == x ==> tags[k].1 == label,
        (exists|k: int| from <= k < tags.len() && (#[trigger] tags[k]).0 == x) || otherwise
            == label,
    ensures
        route(
            blocks,
            check_label(from),
            answers(tags, x).skip(from as int),
        ) == label,
    decreases tags.len() - from,
{
    let all = answers(tags, x);
    let rest = all.skip(from as int);
    let list = blocks[check_label(from)].instructions;
    let next = next_check(tags, from as int, otherwise);
    let (value, target) = tags[from as int];
    assert(check_is_there(tags, from as int, tag, otherwise, blocks));
    assert(list.last() matches InstructionModel::Branch { true_block, false_block, .. }
        && true_block == target && false_block == next) by {
        reveal(check_is_there);
        reveal(is_check);
        let code = choose|code: CodeModel| #[trigger]
            check_code(code, tag, value, target, next) == list;
    }
    assert(rest[0] == (value == x));
    assert(rest.skip(1) =~= all.skip((from + 1) as int));
    if value != x {
        if from + 1 < tags.len() {
            route_finds(tags, from + 1, tag, otherwise, blocks, x, label);
        } else {
            assert(rest.skip(1).len() == 0);
            assert(route(blocks, next, rest.skip(1)) == otherwise);
        }
    }
}

/// The number in the sixteen bytes of the tag is that of the variant that was written, and no other
/// variant has it.
proof fn number_tells_the_variant(
    variants: Seq<Variant>,
    layout: VariantLayout,
    i: int,
    size: usize,
    image: Seq<u8>,
    at: int,
)
    requires
        0 <= i < variants.len() <= usize::MAX,
        has_wide_tag(layout),
        tells_apart(variants, layout, i, size, image, at),
        0 <= at,
        at + size <= image.len(),
    ensures
        tag_to_store(layout, variants[i], i as usize) is Ok,
        ({
            let tag = tag_to_store(layout, variants[i], i as usize)->Ok_0;
            let x = wide_number_at(with_tag(image, at, tag), at + tag_offset(layout));
            let tags = tags_of(variants, layout);
            let label = variant_label(i as usize);
            &&& forall|k: int|
                0 <= k < tags.len() && (#[trigger] tags[k]).0 == x ==> tags[k].1 == label
            &&& (exists|k: int| 0 <= k < tags.len() && (#[trigger] tags[k]).0 == x) || other_label(
                layout,
            ) == label
        }),
{
    let tag = tag_to_store(layout, variants[i], i as usize)->Ok_0;
    let x = wide_number_at(with_tag(image, at, tag), at + tag_offset(layout));
    let tags = tags_of(variants, layout);
    let label = variant_label(i as usize);
    if tag is Some {
        wide_number_is_put_together(image, at + tag->0.offset, tag->0.value);
    }
    match layout {
        VariantLayout::Direct { .. } => {
            masked_is_the_remainder(variants[i].discriminant, 16);
            assert(tags[i].0 == x);
            assert forall|k: int| 0 <= k < tags.len() && (#[trigger] tags[k]).0 == x
                implies tags[k].1
                == label by {
                masked_is_the_remainder(variants[k].discriminant, 16);
            }
        },
        VariantLayout::Niche { untagged_variant, niche_start_variant, niche_start, .. } => {
            if i == untagged_variant {
                assert(x == tag_at(image, at + tag_offset(layout), 16));
                assert forall|k: int|
                    0 <= k < tags.len() && (#[trigger] tags[k]).0 == x implies tags[k].1 == label
                        by {
                    let sum = wide_sum(niche_start, k as u32);
                }
            } else {
                let k0 = i - niche_start_variant;
                masked_is_the_remainder(wide_sum(niche_start, k0 as u32), 16);
                assert(tags[k0].0 == x);
                assert forall|k: int|
                    0 <= k < tags.len() && (#[trigger] tags[k]).0 == x implies tags[k].1 == label
                        by {
                    masked_is_the_remainder(wide_sum(niche_start, k as u32), 16);
                    assert(k == k0);
                }
            }
        },
        _ => {},
    }
}

/// The comparisons of the number in the sixteen bytes of a tag lead to the block of the variant
/// that was written.
proof fn number_leads_to_the_variant(
    variants: Seq<Variant>,
    layout: VariantLayout,
    enum_class: Text,
    blocks: Map<Text, BasicBlockModel>,
    i: int,
    size: usize,
    image: Seq<u8>,
    at: int,
)
    requires
        0 <= i < variants.len() <= usize::MAX,
        has_wide_tag(layout),
        tells_apart(variants, layout, i, size, image, at),
        0 <= at,
        at + size <= image.len(),
    ensures
        tag_to_store(layout, variants[i], i as usize) is Ok,
        ({
            let tag = tag_to_store(layout, variants[i], i as usize)->Ok_0;
            let x = wide_number_at(with_tag(image, at, tag), at + tag_offset(layout));
            let (made, entry) = enum_dispatch(variants, layout, enum_class, blocks);
            let tags = tags_of(variants, layout);
            let storage = storage_at("_1"@, "_2"@, variable("_3"@, Type::I32));
            let (code, operand) = loaded_tag(storage, tag_offset(layout), empty_code(0));
            let otherwise = other_label(layout);
            &&& entry == check_label(0)
            &&& checks_are_there(tags, 0, operand, otherwise, made)
            &&& tags.len() > 0 ==> made[entry].instructions == check_code(
                code,
                operand,
                tags[0].0,
                tags[0].1,
                next_check(tags, 0, otherwise),
            )
            &&& led_to(made, tags, x) == variant_label(i as usize)
        }),
{
    tag_is_compared(variants, layout, enum_class, blocks);
    number_tells_the_variant(variants, layout, i, size, image, at);
    let tag = tag_to_store(layout, variants[i], i as usize)->Ok_0;
    let x = wide_number_at(with_tag(image, at, tag), at + tag_offset(layout));
    let made = enum_dispatch(variants, layout, enum_class, blocks).0;
    let tags = tags_of(variants, layout);
    if tags.len() > 0 {
        let storage = storage_at("_1"@, "_2"@, variable("_3"@, Type::I32));
        let operand = loaded_tag(storage, tag_offset(layout), empty_code(0)).1;
        let label = variant_label(i as usize);
        route_finds(tags, 0, operand, other_label(layout), made, x, label);
        assert(answers(tags, x).skip(0) =~= answers(tags, x));
    }
}

/// A variant that the writer of an enum with a tag of sixteen bytes put into an array is what the
/// reader of the enum gives back from there: the reader compares the number that the runtime reads
/// from the sixteen bytes with the tag of each variant, and comparisons that answer whether the two
/// are the same lead to the block that gives the variant back. That the runtime reads the number
/// that the bytes hold, and compares it so, is what is taken of it here; its methods are not part
/// of this library. It holds of variants whose parts are plain, and of every place in the array.
#[verifier::rlimit(40)]
pub proof fn written_wide_variant_is_read(
    adt: Adt,
    layout: VariantLayout,
    enum_class: Text,
    i: int,
    size: usize,
    value: Value,
    defs: DefinitionsModel,
    m: Machine,
    r: Machine,
    start: u64,
) -> (n: Machine)
    requires
        are_plain_variants(adt.variants@, enum_class, size, defs, m.classes),
        0 <= i < adt.variants@.len(),
        has_wide_tag(layout),
        parts_fit(class_of_variant(enum_class, adt.variants@[i]), adt.variants@[i].fields@, value),
        m.objects.contains_key("_1"@),
        m.objects["_1"@] == value,
        m.numbers.contains_key("_4"@),
        m.numbers["_4"@] == start,
        m.arrays.contains_key("_2"@),
        start + size <= m.arrays["_2"@].len() <= i32::MAX,
        tells_apart(
            adt.variants@,
            layout,
            i,
            size,
            image_from(
                adt.variants@[i].fields@,
                value->parts,
                0,
                m.arrays["_2"@],
                start as int,
            ),
            start as int,
        ),
        r.classes == m.classes,
        r.numbers.contains_key("_3"@),
        r.numbers["_3"@] == start,
        i * 10_000 + 40 + temps_needed_from(adt.variants@[i].fields@, 0) <= usize::MAX,
    ensures
        ({
            let (defs1, written) = variant_writer(
                adt.variants@[i],
                i as usize,
                layout,
                enum_class,
                defs,
            );
            let (defs2, read) = enum_reader_method(adt, layout, enum_class, defs);
            let bytes = n.arrays["_2"@];
            let x = wide_number_at(bytes, start + tag_offset(layout));
            let tags = tags_of(adt.variants@, layout);
            let storage = storage_at("_1"@, "_2"@, variable("_3"@, Type::I32));
            let (code, tag) = loaded_tag(storage, tag_offset(layout), empty_code(0));
            let otherwise = other_label(layout);
            &&& defs1 == defs
            &&& written matches Ok(writer)
            &&& returned(m, writer.body, writer.body.entry, 1) == Some((n, None::<OperandModel>))
            &&& defs2 == defs
            &&& read matches Ok(reader)
            &&& reader.body.entry == check_label(0)
            &&& checks_are_there(tags, 0, tag, otherwise, reader.body.basic_blocks)
            &&& tags.len() > 0 ==> reader.body.basic_blocks[check_label(0)].instructions
                == check_code(code, tag, tags[0].0, tags[0].1, next_check(tags, 0, otherwise))
            &&& led_to(reader.body.basic_blocks, tags, x) == variant_label(i as usize)
            &&& returned(
                Machine { arrays: r.arrays.insert("_1"@, bytes), ..r },
                reader.body,
                variant_label(i as usize),
                1,
            ) matches Some((p, operand))
            &&& operand matches Some(result)
            &&& full_value(p, result) == Some(value)
        }),
{
    let variants = adt.variants@;
    let item = variants[i];
    let bytes = m.arrays["_2"@];
    let at = start as int;
    let image = image_from(item.fields@, value->parts, 0, bytes, at);
    image_of_parts_is_local(
        crate::layout::slots_of_variant(item.fields@),
        class_of_variant(enum_class, item),
        item.fields@,
        size,
        value->parts,
        0,
        bytes,
        at,
        defs,
        m.classes,
    );
    number_tells_the_variant(variants, layout, i, size, image, at);
    let n = variant_is_written(item, i as usize, layout, enum_class, size, value, defs, m, start);
    let tag = tag_to_store(layout, item, i as usize)->Ok_0;
    let there = with_tag(image, at, tag);
    parts_show_beside_the_tag(
        item,
        enum_class,
        size,
        value,
        tag,
        bytes,
        at,
        defs,
        m.classes,
    );
    let q = Machine { arrays: r.arrays.insert("_1"@, there), ..r };
    block_reads_the_variant(adt, layout, enum_class, i, size, value, defs, q, start, 1);
    let body = enum_reader_method(adt, layout, enum_class, defs).1->Ok_0.body;
    let made = variant_blocks(variants, enum_class, 0, defs, no_blocks()).1;
    assert((body.basic_blocks, body.entry) == enum_dispatch(variants, layout, enum_class, made));
    number_leads_to_the_variant(variants, layout, enum_class, made, i, size, image, at);
    assert(n.arrays["_2"@] == there);
    n
}

} // verus!
