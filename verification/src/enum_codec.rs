//! The methods of enums that write their variants into storage and read them back.
use crate::code::{
    Code, CodeModel, Definitions, DefinitionsModel, block_put, branch, branches, class,
    class_type, decimal_usize, emit, empty_blocks, empty_code, equality, flush_block, flushed,
    fresh, i64_operand, i64_value, jump, jumps, make_function, no_blocks, operand_var,
    outcome_model, plain_function, put_block, return_nothing, return_value, returns_nothing,
    returns_value, simple_body, single_block, switch_on, switches, tests_equality, throw_new,
    throws_new, unit_outcome, unsupported_body, unsupported_union_body, variable,
};
use crate::codec::{
    ENUM_READ_UNION_STORAGE_METHOD, ENUM_WRITE_UNION_STORAGE_METHOD, add_function, enum_reader,
    enum_union_read_signature, enum_union_write_signature, enum_writer, function_added,
    method_taken, take_method, variant_class_name,
};
use crate::definitions::{class_has_method, has_method, is_class, is_class_name, is_defined};
use crate::layout::{
    adt_valid, all_valid, plan_variant_slots, slots_of_variant, tag_check, union_enum_tag,
};
use crate::load::{emit_aggregate_from_union_bytes, loaded_aggregate};
use crate::lowering::{define_fields, defined_fields, ensure_enum_data_types, enum_defined};
use crate::name_map::NameMap;
use crate::oomir::{
    BasicBlock, BasicBlockModel, CodeBlock, CodeBlockModel, Constant, ConstantModel, Function,
    FunctionModel, OperandModel, Text, Type,
};
use crate::rust_type::{Adt, RustType, Variant, VariantLayout};
use crate::store::{emit_aggregate_to_union_bytes, stored_fields};
use crate::text::{cat2, cat3, decimal_text};
use crate::union_storage::{
    UnionStorage, UnionStorageModel, emit_bits_from_union_bytes, emit_bits_to_union_bytes,
    emit_u128_constant, emit_u128_tag_from_union_bytes, emit_u128_tag_to_union_bytes, loaded_bits,
    loaded_tag, low_half, low_half_of, masked, masked_enum_discriminant_bits, storage_at,
    stored_bits, stored_tag, wide_constant,
};
use vstd::prelude::*;
use vstd::string::*;

verus! {

/// The label of the block of a variant.
pub open spec fn variant_label(index: usize) -> Text {
    "variant_"@ + decimal_text(index as nat)
}

/// The label of the block of a variant.
pub fn variant_label_of(index: usize) -> (r: String)
    ensures
        r@ == variant_label(index),
{
    cat2("variant_", decimal_usize(index).as_str())
}

/// A number of 32 bits as a position.
pub fn index_of_u32(n: u32) -> (r: usize)
    ensures
        r == n as usize,
{
    n as usize
}

/// A tag that is written with a variant.
#[derive(Debug)]
pub struct TagStore {
    pub offset: usize,
    pub size: usize,
    pub value: u128,
}

/// The tag that is written with a variant, if there is one.
pub type TagChoice = Option<TagStore>;

/// The sum of two numbers of 128 bits; it wraps.
pub open spec fn wide_sum(a: u128, b: u32) -> u128 {
    if a + b > u128::MAX {
        (a + b - u128::MAX - 1) as u128
    } else {
        (a + b) as u128
    }
}

/// The sum of two numbers of 128 bits; it wraps.
pub fn add_wide(a: u128, b: u32) -> (r: u128)
    ensures
        r == wide_sum(a, b),
{
    a.wrapping_add(b as u128)
}

/// The tag that is written with a variant: its discriminant, or a value in the niche of the
/// variant that needs no tag.
pub open spec fn tag_to_store(layout: VariantLayout, variant: Variant, index: usize) -> Result<
    TagChoice,
    Text,
> {
    match layout {
        VariantLayout::Direct { offset, size } => Ok(
            Some(TagStore { offset, size, value: masked(variant.discriminant, size) }),
        ),
        VariantLayout::Niche {
            offset,
            size,
            untagged_variant,
            niche_start_variant,
            niche_end_variant,
            niche_start,
        } => if index == untagged_variant {
            Ok(None)
        } else if index < niche_start_variant || index > niche_end_variant {
            Err(
                "variant "@ + decimal_text(index as nat)
                    + " is neither the untagged nor a niche variant"@,
            )
        } else {
            Ok(
                Some(
                    TagStore {
                        offset,
                        size,
                        value: masked(
                            wide_sum(niche_start, (index - niche_start_variant) as u32),
                            size,
                        ),
                    },
                ),
            )
        },
        _ => Ok(None),
    }
}

/// The tag that is written with a variant.
pub fn tag_to_store_of(layout: &VariantLayout, variant: &Variant, index: usize) -> (r: Result<
    TagChoice,
    String,
>)
    ensures
        (match r {
            Ok(choice) => Ok(choice),
            Err(reason) => Err(reason@),
        }) == tag_to_store(*layout, *variant, index),
{
    match layout {
        VariantLayout::Direct { offset, size } => Ok(
            Some(
                TagStore {
                    offset: *offset,
                    size: *size,
                    value: masked_enum_discriminant_bits(variant.discriminant, *size),
                },
            ),
        ),
        VariantLayout::Niche {
            offset,
            size,
            untagged_variant,
            niche_start_variant,
            niche_end_variant,
            niche_start,
        } => {
            if index == *untagged_variant as usize {
                Ok(None)
            } else if index < *niche_start_variant as usize || index > *niche_end_variant as usize {
                Err(
                    cat3(
                        "variant ",
                        decimal_usize(index).as_str(),
                        " is neither the untagged nor a niche variant",
                    ),
                )
            } else {
                let relative: u32 = (index - *niche_start_variant as usize) as u32;
                Ok(
                    Some(
                        TagStore {
                            offset: *offset,
                            size: *size,
                            value: masked_enum_discriminant_bits(
                                add_wide(*niche_start, relative),
                                *size,
                            ),
                        },
                    ),
                )
            }
        },
        _ => Ok(None),
    }
}

/// Stores the tag of a variant.
#[verifier::opaque]
pub open spec fn stored_variant_tag(
    tag: TagChoice,
    storage: UnionStorageModel,
    code: CodeModel,
) -> CodeModel {
    match tag {
        None => {
            code
        },
        Some(place) => {
            if place.size == 16 {
                let code = stored_tag(place.value, 16, storage, place.offset, code);
                code
            } else {
                let code = stored_bits(
                    i64_value(low_half(place.value)),
                    Type::I64,
                    place.size as nat,
                    storage,
                    place.offset,
                    code,
                );
                code
            }
        },
    }
}

/// Stores the tag of a variant.
pub fn emit_variant_tag(tag: &TagChoice, storage: &UnionStorage, code: &mut Code)
    ensures
        final(code).deep_view() == stored_variant_tag(
            *tag,
            storage.deep_view(),
            old(code).deep_view(),
        ),
{
    proof {
        reveal(stored_variant_tag);
    }
    match tag {
        None => {

        },
        Some(place) => {
            if place.size == 16 {
                emit_u128_tag_to_union_bytes(place.value, storage, place.offset, code);
            } else {
                emit_bits_to_union_bytes(
                    &i64_operand(low_half_of(place.value)),
                    &Type::I64,
                    place.size,
                    storage,
                    place.offset,
                    code,
                );
            }
        },
    }
}

/// The method that writes a variant into storage.
pub open spec fn variant_writer(
    variant: Variant,
    index: usize,
    layout: VariantLayout,
    enum_class: Text,
    defs: DefinitionsModel,
) -> (DefinitionsModel, Result<FunctionModel, Text>)
    decreases variant, 0nat, 0nat,
{
    let class_name = (enum_class + "$"@ + variant.name@);
    let storage = storage_at("_2"@, "_3"@, variable("_4"@, Type::I32));
    let defs = defined_fields(variant.fields@, 0, defs);
    let slots = slots_of_variant(variant.fields@);
    let code = empty_code(0);
    let (code, defs, outcome) = stored_fields(
        variant.fields@,
        slots,
        class_name,
        variable("_1"@, class(class_name)),
        storage,
        0,
        0,
        code,
        defs,
    );
    match outcome {
        Err(error) => (defs, Err(error)),
        Ok(_) => {
            match tag_to_store(layout, variant, index) {
                Err(error) => (defs, Err(error)),
                Ok(tag) => {
                    let code = stored_variant_tag(tag, storage, code);
                    let code = emit(code, returns_nothing());
                    let list = code.instructions;
                    (
                        defs,
                        Ok(
                            plain_function(
                                ENUM_WRITE_UNION_STORAGE_METHOD@,
                                enum_writer(class_name),
                                single_block(list),
                            ),
                        ),
                    )
                },
            }
        },
    }
}

/// The method that writes a variant into storage.
pub fn enum_variant_union_writer(
    variant: &Variant,
    index: usize,
    layout: &VariantLayout,
    enum_class: &str,
    defs: &mut Definitions,
) -> (r: Result<Function, String>)
    requires
        all_valid(variant.fields@),
    ensures
        (
            final(defs).deep_view(),
            outcome_model(r),
        ) == variant_writer(*variant, index, *layout, enum_class@, old(defs).deep_view()),
    decreases variant, 0nat,
{
    let class_name = variant_class_name(enum_class, variant.name.as_str());
    let storage = UnionStorage::at_offset("_2", "_3", &operand_var("_4", &Type::I32));
    define_fields(&variant.fields, defs);
    let slots = plan_variant_slots(&variant.fields);
    let mut code = Code::new(0);
    let _done = match emit_aggregate_to_union_bytes(
        &variant.fields,
        &slots,
        class_name.as_str(),
        &operand_var("_1", &class_type(class_name.as_str())),
        &storage,
        0,
        &mut code,
        defs,
    ) {
        Ok(value) => value,
        Err(error) => return Err(error),
    };
    let tag = match tag_to_store_of(layout, variant, index) {
        Ok(value) => value,
        Err(error) => return Err(error),
    };
    emit_variant_tag(&tag, &storage, &mut code);
    code.push(return_nothing());
    let list = code.into_instructions();
    Ok(
        make_function(
            ENUM_WRITE_UNION_STORAGE_METHOD,
            enum_union_write_signature(class_name.as_str()),
            simple_body(&list),
        ),
    )
}

/// Methods of classes with one more.
pub open spec fn writer_appended(
    class_name: Text,
    writer: FunctionModel,
    writers: Seq<(Text, FunctionModel)>,
) -> Seq<(Text, FunctionModel)> {
    writers.push((class_name, writer))
}

/// Methods of classes with one more.
pub fn append_writer(class_name: &str, writer: Function, writers: &mut Vec<(String, Function)>)
    ensures
        final(writers).deep_view() == writer_appended(
            class_name@,
            writer.deep_view(),
            old(writers).deep_view(),
        ),
{
    let ghost before = writers.deep_view();
    let ghost model = writer.deep_view();
    writers.push((class_name.to_string(), writer));
    assert(writers.deep_view() =~= writer_appended(class_name@, model, before));
}

/// No methods of classes.
pub open spec fn no_writers() -> Seq<(Text, FunctionModel)> {
    Seq::empty()
}

/// No methods of classes.
pub fn empty_writers() -> (r: Vec<(String, Function)>)
    ensures
        r.deep_view() == no_writers(),
{
    let r: Vec<(String, Function)> = Vec::new();
    assert(r.deep_view() =~= no_writers());
    r
}

/// Whether all variants are described completely.
pub open spec fn variants_valid(variants: Seq<Variant>) -> bool {
    forall|v: int| 0 <= v < variants.len() ==> all_valid((#[trigger] variants[v]).fields@)
}

/// The methods that write the variants from one on.
pub open spec fn variant_writers(
    variants: Seq<Variant>,
    layout: VariantLayout,
    enum_class: Text,
    from: nat,
    defs: DefinitionsModel,
    writers: Seq<(Text, FunctionModel)>,
) -> (DefinitionsModel, Seq<(Text, FunctionModel)>, Result<(), Text>)
    decreases variants, 1nat, variants.len() - from,
{
    if from >= variants.len() {
        (defs, writers, Ok(()))
    } else {
        let item = variants[from as int];
        let (defs, outcome) = variant_writer(item, (from as usize), layout, enum_class, defs);
        match outcome {
            Err(error) => (defs, writers, Err(error)),
            Ok(writer) => {
                let writers = writer_appended((enum_class + "$"@ + item.name@), writer, writers);
                variant_writers(variants, layout, enum_class, from + 1, defs, writers)
            },
        }
    }
}

/// Makes the methods that write the variants.
pub fn generate_variant_writers(
    variants: &Vec<Variant>,
    layout: &VariantLayout,
    enum_class: &str,
    defs: &mut Definitions,
    writers: &mut Vec<(String, Function)>,
) -> (r: Result<(), String>)
    requires
        variants_valid(variants@),
    ensures
        (final(defs).deep_view(), final(writers).deep_view(), unit_outcome(r)) == variant_writers(
            variants@,
            *layout,
            enum_class@,
            0,
            old(defs).deep_view(),
            old(writers).deep_view(),
        ),
    decreases variants@, 1nat,
{
    let ghost start = variant_writers(
            variants@,
            *layout,
            enum_class@,
            0,
            defs.deep_view(),
            writers.deep_view(),
        );
    for i in 0..variants.len()
        invariant
            variants_valid(variants@),
            variant_writers(
                variants@,
                *layout,
                enum_class@,
                i as nat,
                defs.deep_view(),
                writers.deep_view(),
            ) == start,
            start == variant_writers(
                variants@,
                *layout,
                enum_class@,
                0,
                old(defs).deep_view(),
                old(writers).deep_view(),
            ),
    {
        let item = &variants[i];
        let writer = match enum_variant_union_writer(item, i, layout, enum_class, defs) {
            Ok(value) => value,
            Err(error) => return Err(error),
        };
        append_writer(variant_class_name(enum_class, item.name.as_str()).as_str(), writer, writers);
    }
    Ok(())
}

/// The number of the first temporary of the block that reads a variant.
pub open spec fn variant_temps(index: usize) -> usize {
    (index * 10_000) as usize
}

/// The number of the first temporary of the block that reads a variant.
pub fn variant_temps_of(index: usize) -> (r: usize)
    ensures
        r == variant_temps(index),
{
    (index as u128 * 10_000) as usize
}

/// The blocks that read the variants from one on.
pub open spec fn variant_blocks(
    variants: Seq<Variant>,
    enum_class: Text,
    from: nat,
    defs: DefinitionsModel,
    blocks: Map<Text, BasicBlockModel>,
) -> (DefinitionsModel, Map<Text, BasicBlockModel>, Result<(), Text>)
    decreases variants, 1nat, variants.len() - from,
{
    if from >= variants.len() {
        (defs, blocks, Ok(()))
    } else {
        let item = variants[from as int];
        let class_name = (enum_class + "$"@ + item.name@);
        let storage = storage_at("_1"@, "_2"@, variable("_3"@, Type::I32));
        let defs = defined_fields(item.fields@, 0, defs);
        let slots = slots_of_variant(item.fields@);
        let code = empty_code(variant_temps((from as usize)));
        let (code, defs, outcome) = loaded_aggregate(
            item.fields@,
            slots,
            class_name,
            storage,
            0,
            code,
            defs,
        );
        match outcome {
            Err(error) => (defs, blocks, Err(error)),
            Ok(value) => {
                let code = emit(code, returns_value(value));
                let list = code.instructions;
                let blocks = block_put(variant_label((from as usize)), list, blocks);
                variant_blocks(variants, enum_class, from + 1, defs, blocks)
            },
        }
    }
}

/// Makes the blocks that read the variants.
pub fn generate_variant_blocks(
    variants: &Vec<Variant>,
    enum_class: &str,
    defs: &mut Definitions,
    blocks: &mut NameMap<BasicBlock>,
) -> (r: Result<(), String>)
    requires
        variants_valid(variants@),
    ensures
        (final(defs).deep_view(), final(blocks).deep_view(), unit_outcome(r)) == variant_blocks(
            variants@,
            enum_class@,
            0,
            old(defs).deep_view(),
            old(blocks).deep_view(),
        ),
    decreases variants@, 1nat,
{
    let ghost start = variant_blocks(
        variants@,
        enum_class@,
        0,
        defs.deep_view(),
        blocks.deep_view(),
    );
    for i in 0..variants.len()
        invariant
            variants_valid(variants@),
            variant_blocks(
                variants@,
                enum_class@,
                i as nat,
                defs.deep_view(),
                blocks.deep_view(),
            ) == start,
            start == variant_blocks(
                variants@,
                enum_class@,
                0,
                old(defs).deep_view(),
                old(blocks).deep_view(),
            ),
    {
        let item = &variants[i];
        let class_name = variant_class_name(enum_class, item.name.as_str());
        let storage = UnionStorage::at_offset("_1", "_2", &operand_var("_3", &Type::I32));
        define_fields(&item.fields, defs);
        let slots = plan_variant_slots(&item.fields);
        let mut code = Code::new(variant_temps_of(i));
        let value = match emit_aggregate_from_union_bytes(
            &item.fields,
            &slots,
            class_name.as_str(),
            &storage,
            0,
            &mut code,
            defs,
        ) {
            Ok(value) => value,
            Err(error) => return Err(error),
        };
        code.push(return_value(&value));
        let list = code.into_instructions();
        put_block(variant_label_of(i).as_str(), &list, blocks);
    }
    Ok(())
}

/// The label of a comparison of 128-bit tags.
pub open spec fn check_label(index: nat) -> Text {
    "wide_tag_check_"@ + decimal_text(index)
}

/// The label of a comparison of 128-bit tags.
pub fn check_label_of(index: usize) -> (r: String)
    ensures
        r@ == check_label(index as nat),
{
    cat2("wide_tag_check_", decimal_usize(index).as_str())
}

/// The blocks that compare a 128-bit tag with the expected ones, from one on.
pub open spec fn wide_checks(
    comparisons: Seq<(u128, Text)>,
    from: nat,
    tag: OperandModel,
    otherwise: Text,
    code: CodeModel,
    blocks: Map<Text, BasicBlockModel>,
) -> Map<Text, BasicBlockModel>
    decreases comparisons.len() - from,
{
    if from >= comparisons.len() {
        blocks
    } else {
        let (value, target) = comparisons[from as int];
        let (code, expected) = wide_constant(value, code);
        let (code, matches) = fresh(code, "enum_u128_tag_matches"@);
        let code = emit(code, tests_equality(matches, tag, expected));
        let next = if from + 1 == comparisons.len() {
            otherwise
        } else {
            check_label(from + 1)
        };
        let code = emit(code, branches(variable(matches, Type::Boolean), target, next));
        let (code, blocks) = flushed(check_label(from), code, blocks);
        wide_checks(comparisons, from + 1, tag, otherwise, code, blocks)
    }
}

/// The blocks that lead from a stored 128-bit tag to the block of its variant.
pub open spec fn wide_dispatch(
    storage: UnionStorageModel,
    offset: usize,
    comparisons: Seq<(u128, Text)>,
    otherwise: Text,
    blocks: Map<Text, BasicBlockModel>,
) -> (Map<Text, BasicBlockModel>, Text) {
    let (code, tag) = loaded_tag(storage, offset, empty_code(0));
    let blocks = if comparisons.len() == 0 {
        block_put(check_label(0), emit(code, jumps(otherwise)).instructions, blocks)
    } else {
        wide_checks(comparisons, 0, tag, otherwise, code, blocks)
    };
    (blocks, check_label(0))
}

/// Adds the blocks that lead from a stored 128-bit tag to the block of its variant; the result is
/// the label of the first.
pub fn insert_u128_enum_dispatch(
    storage: &UnionStorage,
    offset: usize,
    comparisons: &Vec<(u128, String)>,
    otherwise: &str,
    blocks: &mut NameMap<BasicBlock>,
) -> (r: String)
    ensures
        (final(blocks).deep_view(), r@) == wide_dispatch(
            storage.deep_view(),
            offset,
            comparisons.deep_view(),
            otherwise@,
            old(blocks).deep_view(),
        ),
{
    let mut code = Code::new(0);
    let tag = emit_u128_tag_from_union_bytes(storage, offset, &mut code);
    if comparisons.len() == 0 {
        code.push(jump(otherwise));
        put_block(check_label_of(0).as_str(), &code.into_instructions(), blocks);
        return check_label_of(0);
    }
    let ghost model = comparisons.deep_view();
    let ghost whole = wide_checks(
        model,
        0,
        tag.deep_view(),
        otherwise@,
        code.deep_view(),
        blocks.deep_view(),
    );
    let count: usize = comparisons.len();
    for i in 0..count
        invariant
            count == comparisons@.len(),
            model == comparisons.deep_view(),
            whole == wide_checks(
                model,
                i as nat,
                tag.deep_view(),
                otherwise@,
                code.deep_view(),
                blocks.deep_view(),
            ),
    {
        assert(model[i as int] == comparisons@[i as int].deep_view());
        let expected = emit_u128_constant(comparisons[i].0, &mut code);
        let matches = code.fresh("enum_u128_tag_matches");
        code.push(equality(matches.as_str(), &tag, &expected));
        let next = if i + 1 == count {
            otherwise.to_string()
        } else {
            check_label_of(i + 1)
        };
        code.push(
            branch(
                &operand_var(matches.as_str(), &Type::Boolean),
                comparisons[i].1.as_str(),
                next.as_str(),
            ),
        );
        flush_block(check_label_of(i).as_str(), &mut code, blocks);
    }
    check_label_of(0)
}

/// The discriminants of the variants with the labels of their blocks.
pub open spec fn direct_tags(variants: Seq<Variant>, size: usize) -> Seq<(u128, Text)> {
    Seq::new(
        variants.len(),
        |i: int| (masked(variants[i].discriminant, size), variant_label(i as usize)),
    )
}

/// The discriminants of the variants with the labels of their blocks.
pub fn direct_tags_of(variants: &Vec<Variant>, size: usize) -> (r: Vec<(u128, String)>)
    ensures
        r.deep_view() == direct_tags(variants@, size),
{
    let mut r: Vec<(u128, String)> = Vec::new();
    for i in 0..variants.len()
        invariant
            r@.len() == i,
            forall|k: int|
                #![trigger r@[k]]
                0 <= k < i ==> r@[k].deep_view() == direct_tags(variants@, size)[k],
    {
        r.push(
            (
                masked_enum_discriminant_bits(variants[i].discriminant, size),
                variant_label_of(i),
            ),
        );
    }
    assert(r.deep_view() =~= direct_tags(variants@, size));
    r
}

/// The number of variants from one to another.
pub open spec fn variant_count(start: u32, end: u32) -> nat {
    if start <= end {
        (end - start + 1) as nat
    } else {
        0
    }
}

/// The values of a niche with the labels of the blocks of their variants.
pub open spec fn niche_tags(
    start: u32,
    end: u32,
    niche_start: u128,
    size: usize,
) -> Seq<(u128, Text)> {
    Seq::new(
        variant_count(start, end),
        |i: int|
            (
                masked(wide_sum(niche_start, i as u32), size),
                variant_label((start + i) as usize),
            ),
    )
}

/// The values of a niche with the labels of the blocks of their variants.
pub fn niche_tags_of(
    start: u32,
    end: u32,
    niche_start: u128,
    size: usize,
) -> (r: Vec<(u128, String)>)
    ensures
        r.deep_view() == niche_tags(start, end, niche_start, size),
{
    let mut r: Vec<(u128, String)> = Vec::new();
    let ghost whole = niche_tags(start, end, niche_start, size);
    let mut variant: u64 = start as u64;
    while variant <= end as u64
        invariant
            whole == niche_tags(start, end, niche_start, size),
            start <= variant,
            variant <= end + 1 || variant == start,
            r@.len() == variant - start,
            forall|k: int| #![trigger r@[k]] 0 <= k < r@.len() ==> r@[k].deep_view() == whole[k],
        decreases end + 1 - variant,
    {
        let relative: u32 = (variant - start as u64) as u32;
        r.push(
            (
                masked_enum_discriminant_bits(add_wide(niche_start, relative), size),
                variant_label_of(variant as usize),
            ),
        );
        variant = variant + 1;
    }
    assert(r.deep_view() =~= whole);
    r
}

/// Tags of at most 64 bits as the values of a switch.
pub open spec fn switch_targets(tags: Seq<(u128, Text)>) -> Seq<(ConstantModel, Text)> {
    Seq::new(tags.len(), |i: int| (Constant::I64(low_half(tags[i].0)), tags[i].1))
}

/// Tags of at most 64 bits as the values of a switch.
pub fn switch_targets_of(tags: &Vec<(u128, String)>) -> (r: Vec<(Constant, String)>)
    ensures
        r.deep_view() == switch_targets(tags.deep_view()),
{
    let mut r: Vec<(Constant, String)> = Vec::new();
    for i in 0..tags.len()
        invariant
            r@.len() == i,
            forall|k: int|
                #![trigger r@[k]]
                0 <= k < i ==> r@[k].deep_view() == switch_targets(tags.deep_view())[k],
    {
        assert(tags.deep_view()[i as int] == tags@[i as int].deep_view());
        r.push((Constant::I64(low_half_of(tags[i].0)), tags[i].1.clone()));
    }
    assert(r.deep_view() =~= switch_targets(tags.deep_view()));
    r
}

/// The blocks that lead from a stored tag of at most 64 bits to the block of its variant.
#[verifier::opaque]
pub open spec fn narrow_dispatch(
    storage: UnionStorageModel,
    offset: usize,
    size: usize,
    tags: Seq<(u128, Text)>,
    otherwise: Text,
    blocks: Map<Text, BasicBlockModel>,
) -> (Map<Text, BasicBlockModel>, Text) {
    let code = empty_code(0);
    let (code, tag) = loaded_bits(Type::I64, size as nat, storage, offset, code);
    let code = emit(code, switches(tag, switch_targets(tags), otherwise));
    let list = code.instructions;
    let blocks = block_put("entry"@, list, blocks);
    (blocks, "entry"@)
}

/// Adds the block that leads from a stored tag of at most 64 bits to the block of its variant.
pub fn insert_narrow_dispatch(
    storage: &UnionStorage,
    offset: usize,
    size: usize,
    tags: &Vec<(u128, String)>,
    otherwise: &str,
    blocks: &mut NameMap<BasicBlock>,
) -> (r: String)
    ensures
        (final(blocks).deep_view(), r@) == narrow_dispatch(
            storage.deep_view(),
            offset,
            size,
            tags.deep_view(),
            otherwise@,
            old(blocks).deep_view(),
        ),
{
    proof {
        reveal(narrow_dispatch);
    }
    let mut code = Code::new(0);
    let tag = emit_bits_from_union_bytes(&Type::I64, size, storage, offset, &mut code);
    code.push(switch_on(&tag, &switch_targets_of(tags), otherwise));
    let list = code.into_instructions();
    put_block("entry", &list, blocks);
    "entry".to_string()
}

/// The blocks that lead from a stored tag to the block of its variant.
#[verifier::opaque]
pub open spec fn tag_dispatch(
    storage: UnionStorageModel,
    offset: usize,
    size: usize,
    tags: Seq<(u128, Text)>,
    otherwise: Text,
    blocks: Map<Text, BasicBlockModel>,
) -> (Map<Text, BasicBlockModel>, Text) {
    if size == 16 {
        let (blocks, entry) = wide_dispatch(storage, offset, tags, otherwise, blocks);
        (blocks, entry)
    } else {
        let (blocks, entry) = narrow_dispatch(storage, offset, size, tags, otherwise, blocks);
        (blocks, entry)
    }
}

/// Adds the blocks that lead from a stored tag to the block of its variant.
pub fn insert_tag_dispatch(
    storage: &UnionStorage,
    offset: usize,
    size: usize,
    tags: &Vec<(u128, String)>,
    otherwise: &str,
    blocks: &mut NameMap<BasicBlock>,
) -> (r: String)
    ensures
        (final(blocks).deep_view(), r@) == tag_dispatch(
            storage.deep_view(),
            offset,
            size,
            tags.deep_view(),
            otherwise@,
            old(blocks).deep_view(),
        ),
{
    proof {
        reveal(tag_dispatch);
    }
    if size == 16 {
        let entry = insert_u128_enum_dispatch(storage, offset, tags, otherwise, blocks);
        entry
    } else {
        let entry = insert_narrow_dispatch(storage, offset, size, tags, otherwise, blocks);
        entry
    }
}

/// The block that reports a tag of no variant.
#[verifier::opaque]
pub open spec fn invalid_block(
    enum_class: Text,
    blocks: Map<Text, BasicBlockModel>,
) -> Map<Text, BasicBlockModel> {
    let code = empty_code(0);
    let code = emit(
        code,
        throws_new(
            "java/lang/IllegalArgumentException"@,
            ("invalid discriminant while reading enum "@ + enum_class + " from union storage"@),
        ),
    );
    let list = code.instructions;
    let blocks = block_put("invalid"@, list, blocks);
    blocks
}

/// Adds the block that reports a tag of no variant.
pub fn insert_invalid_block(enum_class: &str, blocks: &mut NameMap<BasicBlock>)
    ensures
        final(blocks).deep_view() == invalid_block(enum_class@, old(blocks).deep_view()),
{
    proof {
        reveal(invalid_block);
    }
    let mut code = Code::new(0);
    code.push(
        throw_new(
            "java/lang/IllegalArgumentException",
            cat3(
                "invalid discriminant while reading enum ",
                enum_class,
                " from union storage",
            ).as_str(),
        ),
    );
    let list = code.into_instructions();
    put_block("invalid", &list, blocks);
}

/// The blocks that lead from the start of the reader to the block of the stored variant.
#[verifier::opaque]
pub open spec fn enum_dispatch(
    variants: Seq<Variant>,
    layout: VariantLayout,
    enum_class: Text,
    blocks: Map<Text, BasicBlockModel>,
) -> (Map<Text, BasicBlockModel>, Text) {
    let storage = storage_at("_1"@, "_2"@, variable("_3"@, Type::I32));
    match layout {
        VariantLayout::Empty => {
            (blocks, variant_label(0))
        },
        VariantLayout::Single { variant } => {
            (blocks, variant_label(((variant as usize))))
        },
        VariantLayout::Direct { offset, size } => {
            let blocks = invalid_block(enum_class, blocks);
            let (blocks, entry) = tag_dispatch(
                storage,
                offset,
                size,
                direct_tags(variants, size),
                "invalid"@,
                blocks,
            );
            (blocks, entry)
        },
        VariantLayout::Niche { offset, size, untagged_variant, niche_start_variant,
            niche_end_variant, niche_start } => {
            let (blocks, entry) = tag_dispatch(
                storage,
                offset,
                size,
                niche_tags(niche_start_variant, niche_end_variant, niche_start, size),
                variant_label(((untagged_variant as usize))),
                blocks,
            );
            (blocks, entry)
        },
    }
}

/// Adds the blocks that lead from the start of the reader to the block of the stored variant; the
/// result is the label of the first.
pub fn insert_enum_dispatch(
    variants: &Vec<Variant>,
    layout: &VariantLayout,
    enum_class: &str,
    blocks: &mut NameMap<BasicBlock>,
) -> (r: String)
    ensures
        (
            final(blocks).deep_view(),
            r@,
        ) == enum_dispatch(variants@, *layout, enum_class@, old(blocks).deep_view()),
{
    proof {
        reveal(enum_dispatch);
    }
    let storage = UnionStorage::at_offset("_1", "_2", &operand_var("_3", &Type::I32));
    match layout {
        VariantLayout::Empty => {
            variant_label_of(0)
        },
        VariantLayout::Single { variant } => {
            variant_label_of(index_of_u32(*variant))
        },
        VariantLayout::Direct { offset, size } => {
            insert_invalid_block(enum_class, blocks);
            let entry = insert_tag_dispatch(
                &storage,
                *offset,
                *size,
                &direct_tags_of(variants, *size),
                "invalid",
                blocks,
            );
            entry
        },
        VariantLayout::Niche { offset, size, untagged_variant, niche_start_variant,
            niche_end_variant, niche_start } => {
            let entry = insert_tag_dispatch(
                &storage,
                *offset,
                *size,
                &niche_tags_of(*niche_start_variant, *niche_end_variant, *niche_start, *size),
                variant_label_of(index_of_u32(*untagged_variant)).as_str(),
                blocks,
            );
            entry
        },
    }
}

/// The method that reads an enum from storage.
pub open spec fn enum_reader_method(
    adt: Adt,
    layout: VariantLayout,
    enum_class: Text,
    defs: DefinitionsModel,
) -> (DefinitionsModel, Result<FunctionModel, Text>)
    decreases adt, 5nat, 0nat,
{
    let blocks = no_blocks();
    let (defs, blocks, outcome) = variant_blocks(adt.variants@, enum_class, 0, defs, blocks);
    match outcome {
        Err(error) => (defs, Err(error)),
        Ok(_) => {
            let (blocks, entry) = enum_dispatch(adt.variants@, layout, enum_class, blocks);
            (defs, Ok(reader_function(enum_class, entry, blocks)))
        },
    }
}

/// The method that reads an enum from storage.
pub fn enum_union_reader(
    adt: &Adt,
    layout: &VariantLayout,
    enum_class: &str,
    defs: &mut Definitions,
) -> (r: Result<Function, String>)
    requires
        adt_valid(*adt),
    ensures
        (
            final(defs).deep_view(),
            outcome_model(r),
        ) == enum_reader_method(*adt, *layout, enum_class@, old(defs).deep_view()),
    decreases adt, 5nat,
{
    let mut blocks = empty_blocks();
    let _done = match generate_variant_blocks(&adt.variants, enum_class, defs, &mut blocks) {
        Ok(value) => value,
        Err(error) => return Err(error),
    };
    let entry = insert_enum_dispatch(&adt.variants, layout, enum_class, &mut blocks);
    Ok(make_reader(enum_class, entry.as_str(), blocks))
}

/// The reader of an enum around its blocks.
pub open spec fn reader_function(
    enum_class: Text,
    entry: Text,
    blocks: Map<Text, BasicBlockModel>,
) -> FunctionModel {
    plain_function(
        ENUM_READ_UNION_STORAGE_METHOD@,
        enum_reader(enum_class),
        CodeBlockModel { entry, basic_blocks: blocks },
    )
}

/// The reader of an enum around its blocks.
pub fn make_reader(enum_class: &str, entry: &str, blocks: NameMap<BasicBlock>) -> (r: Function)
    ensures
        r.deep_view() == reader_function(enum_class@, entry@, blocks.deep_view()),
{
    make_function(
        ENUM_READ_UNION_STORAGE_METHOD,
        enum_union_read_signature(enum_class),
        CodeBlock { entry: entry.to_string(), basic_blocks: blocks },
    )
}

/// The methods of an enum that write its variants, and the one that reads it.
pub open spec fn enum_codec_methods(
    adt: Adt,
    enum_class: Text,
    defs: DefinitionsModel,
    writers: Seq<(Text, FunctionModel)>,
) -> (DefinitionsModel, Seq<(Text, FunctionModel)>, Result<FunctionModel, Text>)
    decreases adt, 6nat, 0nat,
{
    match adt.layout {
        Err(reason) => {
            (defs, writers, Err(reason@))
        },
        Ok(layout) => {
            match tag_check(layout) {
                Err(error) => (defs, writers, Err(error)),
                Ok(checked) => {
                    let (
                        defs,
                        writers,
                        outcome,
                    ) = variant_writers(adt.variants@, layout, enum_class, 0, defs, writers);
                    match outcome {
                        Err(error) => (defs, writers, Err(error)),
                        Ok(_) => {
                            let (defs, outcome) = enum_reader_method(adt, layout, enum_class, defs);
                            match outcome {
                                Err(error) => (defs, writers, Err(error)),
                                Ok(reader) => {
                                    (defs, writers, Ok(reader))
                                },
                            }
                        },
                    }
                },
            }
        },
    }
}

/// Makes the methods of an enum that write its variants, and the one that reads it.
pub fn generate_enum_codec(
    adt: &Adt,
    enum_class: &str,
    defs: &mut Definitions,
    writers: &mut Vec<(String, Function)>,
) -> (r: Result<Function, String>)
    requires
        adt_valid(*adt),
    ensures
        (
            final(defs).deep_view(),
            final(writers).deep_view(),
            outcome_model(r),
        ) == enum_codec_methods(
            *adt,
            enum_class@,
            old(defs).deep_view(),
            old(writers).deep_view(),
        ),
    decreases adt, 6nat,
{
    match &adt.layout {
        Err(reason) => {
            Err(reason.clone())
        },
        Ok(layout) => {
            let checked = match union_enum_tag(layout) {
                Ok(value) => value,
                Err(error) => return Err(error),
            };
            let _done = match generate_variant_writers(
                &adt.variants,
                layout,
                enum_class,
                defs,
                writers,
            ) {
                Ok(value) => value,
                Err(error) => return Err(error),
            };
            let reader = match enum_union_reader(adt, layout, enum_class, defs) {
                Ok(value) => value,
                Err(error) => return Err(error),
            };
            Ok(reader)
        },
    }
}

/// Definitions with the classes of an enum, if its name is not defined.
pub open spec fn enum_there(
    ty: RustType,
    adt: Adt,
    enum_class: Text,
    defs: DefinitionsModel,
) -> DefinitionsModel
    decreases adt, 7nat, 0nat,
{
    if (defs.dom().contains(enum_class)) || !adt.is_described {
        defs
    } else {
        let defs = enum_defined(ty, adt, defs);
        defs
    }
}

/// Defines the classes of an enum, if its name is not defined.
pub fn define_missing_enum(ty: &RustType, adt: &Adt, enum_class: &str, defs: &mut Definitions)
    requires
        adt_valid(*adt),
    ensures
        final(defs).deep_view() == enum_there(*ty, *adt, enum_class@, old(defs).deep_view()),
    decreases adt, 7nat,
{
    if is_defined(defs, enum_class) || !adt.is_described {

    } else {
        ensure_enum_data_types(ty, adt, defs);
    }
}

/// Definitions in which an enum can be written to storage and read from it. The base class gets its
/// writer first: a recursive enum finds it there and leaves the rest to the outer call.
pub open spec fn enum_codec(
    ty: RustType,
    adt: Adt,
    enum_class: Text,
    defs: DefinitionsModel,
) -> (DefinitionsModel, Result<(), Text>)
    decreases adt, 8nat, 0nat,
{
    let defs = enum_there(ty, adt, enum_class, defs);
    if class_has_method(
        defs,
        enum_class,
        ENUM_READ_UNION_STORAGE_METHOD@,
    ) || class_has_method(defs, enum_class, ENUM_WRITE_UNION_STORAGE_METHOD@) {
        (defs, Ok(()))
    } else if !is_class(defs, enum_class) {
        (defs, Err(("enum JVM class "@ + enum_class + " was not defined"@)))
    } else {
        let defs = function_added(
            enum_class,
            ENUM_WRITE_UNION_STORAGE_METHOD@,
            plain_function(
                ENUM_WRITE_UNION_STORAGE_METHOD@,
                enum_writer(enum_class),
                unsupported_body(
                    ("enum base class "@ + enum_class + " has no concrete union representation"@),
                ),
            ),
            defs,
        );
        let writers = no_writers();
        let (defs, writers, made) = enum_codec_methods(adt, enum_class, defs, writers);
        match made {
            Err(error) => {
                let defs = method_taken(enum_class, ENUM_WRITE_UNION_STORAGE_METHOD@, defs);
                (defs, Err(error))
            },
            Ok(reader) => {
                let (defs, outcome) = writers_installed(writers, 0, defs);
                match outcome {
                    Err(error) => (defs, Err(error)),
                    Ok(_) => {
                        if is_class(defs, enum_class) {
                            let defs = function_added(
                                enum_class,
                                ENUM_READ_UNION_STORAGE_METHOD@,
                                reader,
                                defs,
                            );
                            (defs, Ok(()))
                        } else {
                            (defs, Err(("enum JVM class "@ + enum_class + " was not defined"@)))
                        }
                    },
                }
            },
        }
    }
}

/// Gives an enum and its variants the methods that write and read storage.
pub fn ensure_enum_union_codec(
    ty: &RustType,
    adt: &Adt,
    enum_class: &str,
    defs: &mut Definitions,
) -> (r: Result<(), String>)
    requires
        adt_valid(*adt),
    ensures
        (
            final(defs).deep_view(),
            unit_outcome(r),
        ) == enum_codec(*ty, *adt, enum_class@, old(defs).deep_view()),
    decreases adt, 8nat,
{
    define_missing_enum(ty, adt, enum_class, defs);
    if has_method(
        defs,
        enum_class,
        ENUM_READ_UNION_STORAGE_METHOD,
    ) || has_method(defs, enum_class, ENUM_WRITE_UNION_STORAGE_METHOD) {
        Ok(())
    } else if !is_class_name(defs, enum_class) {
        Err(cat3("enum JVM class ", enum_class, " was not defined"))
    } else {
        add_function(
            enum_class,
            ENUM_WRITE_UNION_STORAGE_METHOD,
            make_function(
                ENUM_WRITE_UNION_STORAGE_METHOD,
                enum_union_write_signature(enum_class),
                unsupported_union_body(
                    cat3(
                        "enum base class ",
                        enum_class,
                        " has no concrete union representation",
                    ).as_str(),
                ),
            ),
            defs,
        );
        let mut writers = empty_writers();
        let made = generate_enum_codec(adt, enum_class, defs, &mut writers);
        match made {
            Err(error) => {
                take_method(enum_class, ENUM_WRITE_UNION_STORAGE_METHOD, defs);
                Err(error)
            },
            Ok(reader) => {
                let _done = match install_writers(writers, defs) {
                    Ok(value) => value,
                    Err(error) => return Err(error),
                };
                if is_class_name(defs, enum_class) {
                    add_function(enum_class, ENUM_READ_UNION_STORAGE_METHOD, reader, defs);
                    Ok(())
                } else {
                    Err(cat3("enum JVM class ", enum_class, " was not defined"))
                }
            },
        }
    }
}

/// Definitions in which classes have their writers, from one on.
pub open spec fn writers_installed(
    writers: Seq<(Text, FunctionModel)>,
    from: nat,
    defs: DefinitionsModel,
) -> (DefinitionsModel, Result<(), Text>)
    decreases writers.len() - from,
{
    if from >= writers.len() {
        (defs, Ok(()))
    } else {
        let (class_name, writer) = writers[from as int];
        if is_class(defs, class_name) {
            writers_installed(
                writers,
                from + 1,
                function_added(class_name, ENUM_WRITE_UNION_STORAGE_METHOD@, writer, defs),
            )
        } else {
            (defs, Err("enum variant JVM class "@ + class_name + " was not defined"@))
        }
    }
}

/// Definitions in which classes have their writers, from one on.
pub fn install_writers(writers: Vec<(String, Function)>, defs: &mut Definitions) -> (r: Result<
    (),
    String,
>)
    ensures
        (final(defs).deep_view(), unit_outcome(r)) == writers_installed(
            writers.deep_view(),
            0,
            old(defs).deep_view(),
        ),
{
    let ghost model = writers.deep_view();
    let ghost whole = writers_installed(model, 0, defs.deep_view());
    for writer in it: writers
        invariant
            it.seq().len() == model.len(),
            forall|j: int| #![trigger it.seq()[j]] 0 <= j < model.len()
                ==> it.seq()[j].deep_view() == model[j],
            writers_installed(model, it.index() as nat, defs.deep_view()) == whole,
            whole == writers_installed(model, 0, old(defs).deep_view()),
            model == writers.deep_view(),
    {
        let ghost j = it.index();
        assert(model[j] == writer.deep_view());
        let (class_name, function) = writer;
        if !is_class_name(defs, class_name.as_str()) {
            return Err(cat3("enum variant JVM class ", class_name.as_str(), " was not defined"));
        }
        add_function(class_name.as_str(), ENUM_WRITE_UNION_STORAGE_METHOD, function, defs);
    }
    Ok(())
}

} // verus!
