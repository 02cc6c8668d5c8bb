//! The variant that a discriminant stands for.
use crate::code::{class, makes_object, no_blocks, returns_value, switches, typed0, variable};
use crate::enum_class::{
    enum_factory, factory_block, factory_blocks, factory_targets, signed_reading,
};
use crate::enum_codec::variant_label;
use crate::execution::decimals_differ;
use crate::oomir::{BasicBlockModel, ConstantModel, InstructionModel, Text, Type};
use crate::rust_type::Variant;
use crate::text::decimal_text;
use crate::union_storage::masked;
use vstd::prelude::*;
use vstd::string::*;

verus! {

/// The discriminant of a variant as an unsigned number of a size.
pub open spec fn unsigned_tag(variant: Variant, size: usize) -> i64 {
    masked(variant.discriminant, size) as i64
}

/// The discriminant of a variant as a signed number of a size.
pub open spec fn signed_tag(variant: Variant, size: usize) -> i64 {
    signed_reading(unsigned_tag(variant, size), size)
}

/// Whether a number is a reading of the discriminant of a variant.
pub open spec fn reads_as(variant: Variant, size: usize, value: i64) -> bool {
    value == unsigned_tag(variant, size) || value == signed_tag(variant, size)
}

/// Whether no two variants have the same discriminant in a number of bytes.
pub open spec fn tags_differ(variants: Seq<Variant>, size: usize) -> bool {
    forall|i: int, j: int|
        0 <= i < j < variants.len() ==> masked(#[trigger] variants[i].discriminant, size) != masked(
            #[trigger] variants[j].discriminant,
            size,
        )
}

/// Where a switch goes for a number: to the first target with it, or to the default.
pub open spec fn switched(targets: Seq<(ConstantModel, Text)>, value: i64, otherwise: Text) -> Text
    decreases targets.len(),
{
    if targets.len() == 0 {
        otherwise
    } else if targets[0].0 == ConstantModel::I64(value) {
        targets[0].1
    } else {
        switched(targets.skip(1), value, otherwise)
    }
}

/// How many numbers a number of bytes can hold.
pub open spec fn values_of_size(size: nat) -> nat
    decreases size,
{
    if size == 0 {
        1
    } else {
        0x100 * values_of_size((size - 1) as nat)
    }
}

/// The low bytes of a discriminant are its remainder by the number of values of that size; sixteen
/// bytes hold all of it.
pub proof fn masked_is_the_remainder(value: u128, size: usize)
    ensures
        size < 16 ==> masked(value, size) == value as int % values_of_size(size as nat) as int,
        size >= 16 ==> masked(value, size) == value,
{
    reveal_with_fuel(values_of_size, 16);
    assert(value & (((1u128 << 0u128) - 1) as u128) == value % 1 && value & (((1u128 << 8u128) - 1)
        as u128) == value % 0x100 && value & (((1u128 << 16u128) - 1) as u128) == value % 0x1_0000
        && value & (((1u128 << 24u128) - 1) as u128) == value % 0x100_0000 && value & (((1u128
        << 32u128) - 1) as u128) == value % 0x1_0000_0000 && value & (((1u128 << 40u128) - 1)
        as u128) == value % 0x100_0000_0000 && value & (((1u128 << 48u128) - 1) as u128) == value
        % 0x1_0000_0000_0000 && value & (((1u128 << 56u128) - 1) as u128) == value
        % 0x100_0000_0000_0000 && value & (((1u128 << 64u128) - 1) as u128) == value
        % 0x1_0000_0000_0000_0000) by (bit_vector);
    assert(value & (((1u128 << 72u128) - 1) as u128) == value % 0x100_0000_0000_0000_0000 && value
        & (((1u128 << 80u128) - 1) as u128) == value % 0x1_0000_0000_0000_0000_0000 && value & (((
    1u128 << 88u128) - 1) as u128) == value % 0x100_0000_0000_0000_0000_0000 && value & (((1u128
        << 96u128) - 1) as u128) == value % 0x1_0000_0000_0000_0000_0000_0000 && value & (((1u128
        << 104u128) - 1) as u128) == value % 0x100_0000_0000_0000_0000_0000_0000 && value & (((
    1u128 << 112u128) - 1) as u128) == value % 0x1_0000_0000_0000_0000_0000_0000_0000 && value & (((
    1u128 << 120u128) - 1) as u128) == value % 0x100_0000_0000_0000_0000_0000_0000_0000)
        by (bit_vector);
}

/// Two discriminants with a common reading are the same in their low bytes.
proof fn readings_are_unique(a: Variant, b: Variant, size: usize, value: i64)
    requires
        size == 1 || size == 2 || size == 4 || size == 8,
        reads_as(a, size, value),
        reads_as(b, size, value),
    ensures
        masked(a.discriminant, size) == masked(b.discriminant, size),
{
    let x = masked(a.discriminant, size);
    let y = masked(b.discriminant, size);
    reveal_with_fuel(values_of_size, 9);
    masked_is_the_remainder(a.discriminant, size);
    masked_is_the_remainder(b.discriminant, size);
    assert(x < 0x1_0000_0000_0000_0000 && y < 0x1_0000_0000_0000_0000 && x as i64 == y as i64 ==> x
        == y) by (bit_vector);
    assert(x < 0x8000_0000_0000_0000 ==> x as i64 == x) by (bit_vector);
    assert(y < 0x8000_0000_0000_0000 ==> y as i64 == y) by (bit_vector);
}

/// Each target of a factory is a reading of the variant that it leads to.
proof fn target_reads_as(variants: Seq<Variant>, size: usize, n: nat, k: int) -> (i: int)
    requires
        n <= variants.len(),
        0 <= k < factory_targets(variants, size, n).len(),
    ensures
        0 <= i < n,
        factory_targets(variants, size, n)[k].1 == variant_label(i as usize),
        factory_targets(variants, size, n)[k].0 matches ConstantModel::I64(value) && reads_as(
            variants[i],
            size,
            value,
        ),
    decreases n,
{
    let before = factory_targets(variants, size, (n - 1) as nat);
    if k < before.len() {
        target_reads_as(variants, size, (n - 1) as nat, k)
    } else {
        n - 1
    }
}

/// Each reading of a variant is a target of a factory.
proof fn reading_has_a_target(
    variants: Seq<Variant>,
    size: usize,
    n: nat,
    i: int,
    value: i64,
) -> (k: int)
    requires
        0 <= i < n <= variants.len(),
        reads_as(variants[i], size, value),
    ensures
        0 <= k < factory_targets(variants, size, n).len(),
        factory_targets(variants, size, n)[k] == (
            ConstantModel::I64(value),
            variant_label(i as usize),
        ),
    decreases n,
{
    let before = factory_targets(variants, size, (n - 1) as nat);
    if i < n - 1 {
        let k = reading_has_a_target(variants, size, (n - 1) as nat, i, value);
        assert(factory_targets(variants, size, n)[k] == before[k]);
        k
    } else if value == unsigned_tag(variants[i], size) {
        before.len() as int
    } else {
        before.len() as int + 1
    }
}

/// A switch whose targets with a number all lead to one label goes there, if there is one.
pub proof fn switch_finds(
    targets: Seq<(ConstantModel, Text)>,
    value: i64,
    otherwise: Text,
    label: Text,
)
    requires
        forall|k: int|
            0 <= k < targets.len() && #[trigger] targets[k].0 == ConstantModel::I64(value)
                ==> targets[k].1 == label,
    ensures
        switched(targets, value, otherwise) == label || switched(targets, value, otherwise)
            == otherwise,
        (exists|k: int| 0 <= k < targets.len()
            && #[trigger] targets[k].0 == ConstantModel::I64(value))
            ==> switched(targets, value, otherwise) == label,
        (forall|k: int| 0 <= k < targets.len()
            ==> #[trigger] targets[k].0 != ConstantModel::I64(value))
            ==> switched(targets, value, otherwise) == otherwise,
    decreases targets.len(),
{
    if targets.len() > 0 && targets[0].0 != ConstantModel::I64(value) {
        let rest = targets.skip(1);
        assert forall|k: int|
            0 <= k < rest.len() && #[trigger] rest[k].0 == ConstantModel::I64(value)
                implies rest[k].1
            == label by {
            assert(rest[k] == targets[k + 1]);
        }
        switch_finds(rest, value, otherwise, label);
        if exists|k: int| 0 <= k < targets.len()
            && #[trigger] targets[k].0 == ConstantModel::I64(value) {
            let k = choose|k: int|
                0 <= k < targets.len() && #[trigger] targets[k].0 == ConstantModel::I64(value);
            assert(rest[k - 1] == targets[k]);
            assert(rest[k - 1].0 == ConstantModel::I64(value));
        }
        if forall|k: int| 0 <= k < targets.len()
            ==> #[trigger] targets[k].0 != ConstantModel::I64(value) {
            assert forall|k: int| 0 <= k < rest.len() implies #[trigger] rest[k].0
                != ConstantModel::I64(value) by {
                assert(rest[k] == targets[k + 1]);
            }
        }
    }
}

/// The labels of different variants differ.
pub proof fn variant_labels_differ(i: usize, j: usize)
    requires
        variant_label(i) == variant_label(j),
    ensures
        i == j,
{
    reveal_strlit("variant_");
    assert(variant_label(i).skip(8) =~= decimal_text(i as nat));
    assert(variant_label(j).skip(8) =~= decimal_text(j as nat));
    decimals_differ(i as nat, j as nat);
}

/// The block of a variant in a factory: it makes an object of the class of the variant.
pub open spec fn maker_block(
    enum_class: Text,
    variants: Seq<Variant>,
    i: int,
) -> Seq<InstructionModel> {
    let class_name = enum_class + "$"@ + variants[i].name@;
    let dest = "_variant_"@ + decimal_text(i as nat);
    seq![
        makes_object(dest, class_name, typed0()),
        returns_value(variable(dest, class(class_name))),
    ]
}

proof fn maker_block_is_there(
    variants: Seq<Variant>,
    enum_class: Text,
    from: nat,
    blocks: Map<Text, BasicBlockModel>,
    i: int,
)
    requires
        variants.len() <= usize::MAX,
        0 <= i < variants.len(),
        i < from ==> blocks.contains_key(variant_label(i as usize))
            && blocks[variant_label(i as usize)].instructions == maker_block(
                enum_class,
                variants,
                i,
            ),
    ensures
        factory_blocks(variants, enum_class, from, blocks).contains_key(variant_label(i as usize)),
        factory_blocks(variants, enum_class, from, blocks)[variant_label(i as usize)].instructions
            == maker_block(enum_class, variants, i),
    decreases variants.len() - from,
{
    if from < variants.len() {
        reveal(factory_block);
        let item = variants[from as int];
        let more = factory_block(from as usize, enum_class + "$"@ + item.name@, blocks);
        if i < from {
            if variant_label(i as usize) == variant_label(from as usize) {
                variant_labels_differ(i as usize, from as usize);
            }
        } else if i == from {
            assert(more[variant_label(i as usize)].instructions =~= maker_block(
                enum_class,
                variants,
                i,
            ));
        }
        maker_block_is_there(variants, enum_class, from + 1, more, i);
    }
}

/// The method that makes a value of an enum goes, for each reading of the discriminant of a
/// variant, to the block that makes an object of that variant, and for every other number to the
/// block that fails.
pub proof fn factory_makes_the_variant(
    variants: Seq<Variant>,
    size: usize,
    enum_class: Text,
    i: int,
    value: i64,
)
    requires
        size == 1 || size == 2 || size == 4 || size == 8,
        variants.len() <= usize::MAX,
        tags_differ(variants, size),
    ensures
        ({
            let body = enum_factory(variants, size, enum_class).body;
            let blocks = body.basic_blocks;
            let targets = factory_targets(variants, size, variants.len());
            let label = switched(targets, value, "invalid"@);
            &&& body.entry == "entry"@
            &&& blocks.contains_key("entry"@)
            &&& blocks["entry"@].instructions == seq![
                switches(variable("_1"@, Type::I64), targets, "invalid"@),
            ]
            &&& 0 <= i < variants.len() && reads_as(variants[i], size, value)
                ==> blocks.contains_key(label) && blocks[label].instructions == maker_block(
                enum_class,
                variants,
                i,
            )
            &&& (forall|j: int|
                0 <= j < variants.len() ==> !reads_as(
                    #[trigger] variants[j],
                    size,
                    value,
                )) ==> label
                == "invalid"@ && blocks.contains_key(label) && blocks[label].instructions[0]
                is ThrowNewWithMessage
        }),
{
    reveal(enum_factory);
    reveal(crate::enum_codec::invalid_block);
    reveal_strlit("entry");
    reveal_strlit("invalid");
    reveal_strlit("variant_");
    let targets = factory_targets(variants, size, variants.len());
    let made = factory_blocks(variants, enum_class, 0, no_blocks());
    let blocks = enum_factory(variants, size, enum_class).body.basic_blocks;
    assert("entry"@[0] != "invalid"@[0]);
    assert(blocks["entry"@].instructions =~= seq![
        switches(variable("_1"@, Type::I64), targets, "invalid"@),
    ]);
    if 0 <= i < variants.len() && reads_as(variants[i], size, value) {
        let label = variant_label(i as usize);
        assert forall|k: int|
            0 <= k < targets.len() && #[trigger] targets[k].0 == ConstantModel::I64(
                value,
            ) implies targets[k].1 == label by {
            let j = target_reads_as(variants, size, variants.len(), k);
            readings_are_unique(variants[i], variants[j], size, value);
            if i < j {
                assert(masked(variants[i].discriminant, size) != masked(
                    variants[j].discriminant,
                    size,
                ));
            } else if j < i {
                assert(masked(variants[j].discriminant, size) != masked(
                    variants[i].discriminant,
                    size,
                ));
            }
        }
        let k = reading_has_a_target(variants, size, variants.len(), i, value);
        assert(targets[k].0 == ConstantModel::I64(value));
        switch_finds(targets, value, "invalid"@, label);
        maker_block_is_there(variants, enum_class, 0, no_blocks(), i);
        assert(label[0] == 'v');
        assert("entry"@[0] == 'e' && "invalid"@[0] == 'i');
    }
    if forall|j: int| 0 <= j < variants.len() ==> !reads_as(#[trigger] variants[j], size, value) {
        assert forall|k: int| 0 <= k < targets.len() implies #[trigger] targets[k].0
            != ConstantModel::I64(value) by {
            let j = target_reads_as(variants, size, variants.len(), k);
            assert(!reads_as(variants[j], size, value));
        }
        switch_finds(targets, value, "invalid"@, "invalid"@);
    }
}

} // verus!
