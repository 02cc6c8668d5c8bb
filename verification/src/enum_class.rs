//! The classes of enums: one for the enum, and one for each of its variants.
use crate::classes::{
    class_ensured, complete_variant, constant_method, default_method, ensure_class,
    function_method, keep_method, method_kept, value_method, variant_completed,
};
use crate::code::{
    Code, CodeModel, Definitions, DefinitionsModel, args1, block_put, calls_static, cast, class,
    class_type, construct, converts, decimal_usize, emit, empty_blocks, empty_code, empty_methods,
    flush_block, flushed, make_args1, make_function, make_params1, make_typed0, makes_object,
    no_blocks, no_methods, operand_var, params1, plain_function, put_block, return_value,
    returns_value, static_call, static_method, static_signature, switch_on, switches, typed0,
    variable,
};
use crate::codec::{some_text, variant_class_name};
use crate::definitions::{class_has_method, has_method, is_class, is_class_name};
use crate::descriptor::is_reference;
use crate::drop_glue::{
    ENUM_DROP_FIELDS_METHOD, enum_variant_drop_glue_function, variant_drop_fields,
};
use crate::enum_codec::{insert_invalid_block, invalid_block, variant_label, variant_label_of};
use crate::layout::{Slot, SlotModel, plan_variant_slots, slots_of_variant};
use crate::name_map::NameMap;
use crate::oomir::{
    Duplicate,
    AdtHelperKind,
    AdtHelperKindModel,
    BasicBlock,
    BasicBlockModel,
    CodeBlock,
    CodeBlockModel,
    Constant, ConstantModel, DataTypeMethod, DataTypeMethodModel, Function, FunctionModel,
    Operand, OperandModel, Signature, SignatureModel, Text, Type, TypeModel, has_value,
    operand_type,
};
use crate::rust_type::{
    Adt, DiscriminantKind, Field, IntKind, RustType, Shape, UintKind, Variant, layout_size_bytes,
    lowered, size_of,
};
use crate::text::{cat2, cat3, decimal_text};
use crate::union_storage::{masked, masked_enum_discriminant};
use vstd::prelude::*;
use vstd::string::*;

verus! {

/// The method of an enum that returns the discriminant of a value.
pub const ENUM_UNION_DISCRIMINANT_METHOD: &'static str = "_unionDiscriminant";

/// The method of an enum that makes a value from a discriminant.
pub const ENUM_FROM_UNION_DISCRIMINANT_METHOD: &'static str = "_fromUnionDiscriminant";

/// Whether the discriminants of an enum fit the integers of the JVM.
pub open spec fn has_narrow_discriminants(adt: Adt) -> bool {
    adt.variants@.len() > 0 && match adt.discriminants {
        DiscriminantKind::Int(kind) => !(kind is I128),
        DiscriminantKind::Uint(kind) => !(kind is U128),
        DiscriminantKind::Other => false,
    }
}

/// Whether the discriminants of an enum fit the integers of the JVM.
pub fn enum_union_discriminant_supported(adt: &Adt) -> (r: bool)
    ensures
        r == has_narrow_discriminants(*adt),
{
    adt.variants.len() > 0 && match adt.discriminants {
        DiscriminantKind::Int(kind) => !matches!(kind, IntKind::I128),
        DiscriminantKind::Uint(kind) => !matches!(kind, UintKind::U128),
        DiscriminantKind::Other => false,
    }
}

/// Whether no variant has a field.
pub open spec fn is_fieldless(variants: Seq<Variant>) -> bool {
    forall|i: int| 0 <= i < variants.len() ==> (#[trigger] variants[i]).fields@.len() == 0
}

fn has_only_names(variants: &Vec<Variant>) -> (r: bool)
    ensures
        r == is_fieldless(variants@),
{
    for i in 0..variants.len()
        invariant
            forall|k: int| 0 <= k < i ==> (#[trigger] variants@[k]).fields@.len() == 0,
    {
        if variants[i].fields.len() > 0 {
            return false;
        }
    }
    true
}

/// The size of the discriminants of an enum without fields, or why it has none in storage.
pub open spec fn simple_enum_size(adt: Adt, size: Result<usize, Text>) -> Result<usize, Text> {
    if !(adt.shape is Enum) || adt.variants@.len() == 0 {
        Err("only non-empty enums are supported in unions"@)
    } else if !is_fieldless(adt.variants@) {
        Err("only fieldless enums are supported in unions"@)
    } else if !has_narrow_discriminants(adt) {
        Err("enum discriminant does not fit the JVM union integer representation"@)
    } else {
        match size {
            Err(reason) => Err(reason),
            Ok(size) => if size == 1 || size == 2 || size == 4 || size == 8 {
                Ok(size)
            } else {
                Err(
                    "unsupported enum discriminant layout size: "@ + decimal_text(size as nat)
                        + " bytes"@,
                )
            },
        }
    }
}

/// The size of the discriminants of an enum without fields, or why it has none in storage.
pub fn simple_enum_union_size(adt: &Adt, ty: &RustType) -> (r: Result<usize, String>)
    ensures
        (match r {
            Ok(size) => Ok(size),
            Err(reason) => Err(reason@),
        }) == simple_enum_size(*adt, size_of(*ty)),
{
    if !matches!(adt.shape, Shape::Enum) || adt.variants.len() == 0 {
        return Err("only non-empty enums are supported in unions".to_string());
    }
    if !has_only_names(&adt.variants) {
        return Err("only fieldless enums are supported in unions".to_string());
    }
    if !enum_union_discriminant_supported(adt) {
        return Err(
            "enum discriminant does not fit the JVM union integer representation".to_string(),
        );
    }
    match layout_size_bytes(ty) {
        Err(reason) => Err(reason),
        Ok(size) => if size == 1 || size == 2 || size == 4 || size == 8 {
            Ok(size)
        } else {
            Err(
                cat3(
                    "unsupported enum discriminant layout size: ",
                    decimal_usize(size).as_str(),
                    " bytes",
                ),
            )
        },
    }
}

/// The number that the low bytes of a number are if the highest bit of them is a sign.
pub open spec fn signed_reading(value: i64, size: usize) -> i64 {
    if size == 1 && value >= 0x80 {
        (value - 0x100) as i64
    } else if size == 2 && value >= 0x8000 {
        (value - 0x1_0000) as i64
    } else if size == 4 && value >= 0x8000_0000 {
        (value - 0x1_0000_0000) as i64
    } else {
        value
    }
}

/// A number of a size is less than what comes behind that size.
pub proof fn masked_is_small(value: u128, size: usize)
    ensures
        size == 1 ==> 0 <= (masked(value, size) as i64) < 0x100,
        size == 2 ==> 0 <= (masked(value, size) as i64) < 0x1_0000,
        size == 4 ==> 0 <= (masked(value, size) as i64) < 0x1_0000_0000,
{
    assert(((value & (((1u128 << 8u128) - 1) as u128)) as i64) < 0x100i64 && 0i64 <= ((value & (((
    1u128 << 8u128) - 1) as u128)) as i64)) by (bit_vector);
    assert(((value & (((1u128 << 16u128) - 1) as u128)) as i64) < 0x1_0000i64 && 0i64 <= ((value & (
    ((1u128 << 16u128) - 1) as u128)) as i64)) by (bit_vector);
    assert(((value & (((1u128 << 32u128) - 1) as u128)) as i64) < 0x1_0000_0000i64 && 0i64 <= ((
    value & (((1u128 << 32u128) - 1) as u128)) as i64)) by (bit_vector);
}

fn read_signed(value: i64, size: usize) -> (r: i64)
    requires
        size == 1 || size == 2 || size == 4 || size == 8,
        size == 1 ==> 0 <= value < 0x100,
        size == 2 ==> 0 <= value < 0x1_0000,
        size == 4 ==> 0 <= value < 0x1_0000_0000,
    ensures
        r == signed_reading(value, size),
{
    let shift: u32 = 64 - (size as u32) * 8;
    proof {
        if size == 1 {
            assert(shift == 56);
            assert((value << 56u32) >> 56u32 == (if value >= 0x80 {
                (value - 0x100) as i64
            } else {
                value
            })) by (bit_vector)
                requires
                    0 <= value < 0x100,
            ;
        } else if size == 2 {
            assert(shift == 48);
            assert((value << 48u32) >> 48u32 == (if value >= 0x8000 {
                (value - 0x1_0000) as i64
            } else {
                value
            })) by (bit_vector)
                requires
                    0 <= value < 0x1_0000,
            ;
        } else if size == 4 {
            assert(shift == 32);
            assert((value << 32u32) >> 32u32 == (if value >= 0x8000_0000 {
                (value - 0x1_0000_0000) as i64
            } else {
                value
            })) by (bit_vector)
                requires
                    0 <= value < 0x1_0000_0000,
            ;
        } else {
            assert(shift == 0);
            assert((value << 0u32) >> 0u32 == value) by (bit_vector);
        }
    }
    (value << shift) >> shift
}

/// The discriminants by which the first variants are found: each as an unsigned number, and as a
/// signed one where that differs.
pub open spec fn factory_targets(variants: Seq<Variant>, size: usize, n: nat) -> Seq<
    (ConstantModel, Text),
>
    decreases n,
{
    if n == 0 || n > variants.len() {
        Seq::empty()
    } else {
        let index = (n - 1) as nat;
        let value = masked(variants[index as int].discriminant, size) as i64;
        let signed = signed_reading(value, size);
        let label = variant_label(index as usize);
        let rest = factory_targets(variants, size, index).push((ConstantModel::I64(value), label));
        if signed != value {
            rest.push((ConstantModel::I64(signed), label))
        } else {
            rest
        }
    }
}

fn make_factory_targets(variants: &Vec<Variant>, size: usize) -> (r: Vec<(Constant, String)>)
    requires
        size == 1 || size == 2 || size == 4 || size == 8,
    ensures
        r.deep_view() == factory_targets(variants@, size, variants@.len()),
{
    let mut r: Vec<(Constant, String)> = Vec::new();
    assert(r.deep_view() =~= factory_targets(variants@, size, 0));
    for i in 0..variants.len()
        invariant
            size == 1 || size == 2 || size == 4 || size == 8,
            r.deep_view() == factory_targets(variants@, size, i as nat),
    {
        let value = masked_enum_discriminant(variants[i].discriminant, size);
        proof {
            masked_is_small(variants@[i as int].discriminant, size);
        }
        let signed = read_signed(value, size);
        let ghost before = r.deep_view();
        let ghost label = variant_label(i);
        r.push((Constant::I64(value), variant_label_of(i)));
        assert(r.deep_view() =~= before.push((ConstantModel::I64(value), label)));
        if signed != value {
            let ghost before = r.deep_view();
            r.push((Constant::I64(signed), variant_label_of(i)));
            assert(r.deep_view() =~= before.push((ConstantModel::I64(signed), label)));
        }
    }
    r
}

/// The blocks that make a value of each variant from one on.
pub open spec fn factory_blocks(
    variants: Seq<Variant>,
    enum_class: Text,
    from: nat,
    blocks: Map<Text, BasicBlockModel>,
) -> Map<Text, BasicBlockModel>
    decreases variants, 0nat, variants.len() - from,
{
    if from >= variants.len() {
        blocks
    } else {
        let item = variants[from as int];
        let blocks = factory_block((from as usize), (enum_class + "$"@ + item.name@), blocks);
        factory_blocks(variants, enum_class, from + 1, blocks)
    }
}

/// Makes the blocks that make a value of each variant.
pub fn insert_factory_blocks(
    variants: &Vec<Variant>,
    enum_class: &str,
    blocks: &mut NameMap<BasicBlock>,
)
    ensures
        final(blocks).deep_view() == factory_blocks(
            variants@,
            enum_class@,
            0,
            old(blocks).deep_view(),
        ),
{
    let ghost start = factory_blocks(variants@, enum_class@, 0, blocks.deep_view());
    for i in 0..variants.len()
        invariant
            factory_blocks(variants@, enum_class@, i as nat, blocks.deep_view()) == start,
    {
        let item = &variants[i];
        insert_factory_block(
            i,
            variant_class_name(enum_class, item.name.as_str()).as_str(),
            blocks,
        );
    }
}

/// The block that makes a value of a variant.
#[verifier::opaque]
pub open spec fn factory_block(
    index: usize,
    class_name: Text,
    blocks: Map<Text, BasicBlockModel>,
) -> Map<Text, BasicBlockModel> {
    let code = empty_code(0);
    let dest = ("_variant_"@ + (decimal_text(index as nat)));
    let code = emit(code, makes_object(dest, class_name, typed0()));
    let code = emit(code, returns_value(variable(dest, class(class_name))));
    let list = code.instructions;
    let blocks = block_put(variant_label(index), list, blocks);
    blocks
}

/// Makes the block that makes a value of a variant.
pub fn insert_factory_block(index: usize, class_name: &str, blocks: &mut NameMap<BasicBlock>)
    ensures
        final(blocks).deep_view() == factory_block(index, class_name@, old(blocks).deep_view()),
{
    proof {
        reveal(factory_block);
    }
    let mut code = Code::new(0);
    let dest = cat2("_variant_", decimal_usize(index).as_str());
    code.push(construct(dest.as_str(), class_name, &make_typed0()));
    code.push(return_value(&operand_var(dest.as_str(), &class_type(class_name))));
    let list = code.into_instructions();
    put_block(variant_label_of(index).as_str(), &list, blocks);
}

/// The method that makes a value of an enum without fields from a discriminant.
#[verifier::opaque]
pub open spec fn enum_factory(
    variants: Seq<Variant>,
    size: usize,
    enum_class: Text,
) -> FunctionModel {
    let blocks = no_blocks();
    let blocks = factory_blocks(variants, enum_class, 0, blocks);
    let code = empty_code(0);
    let code = emit(
        code,
        switches(
            variable("_1"@, Type::I64),
            (factory_targets(variants, size, variants.len())),
            "invalid"@,
        ),
    );
    let (code, blocks) = flushed("entry"@, code, blocks);
    let blocks = invalid_block(enum_class, blocks);
    entry_function(
        ENUM_FROM_UNION_DISCRIMINANT_METHOD@,
        static_method(params1("discriminant"@, Type::I64), class(enum_class)),
        blocks,
    )
}

/// Makes the method that makes a value of an enum from a discriminant.
pub fn enum_from_union_discriminant_function(
    variants: &Vec<Variant>,
    size: usize,
    enum_class: &str,
) -> (r: Function)
    requires
        size == 1 || size == 2 || size == 4 || size == 8,
    ensures
        r.deep_view() == enum_factory(variants@, size, enum_class@),
{
    proof {
        reveal(enum_factory);
    }
    let mut blocks = empty_blocks();
    insert_factory_blocks(variants, enum_class, &mut blocks);
    let mut code = Code::new(0);
    code.push(
        switch_on(&operand_var("_1", &Type::I64), &make_factory_targets(variants, size), "invalid"),
    );
    flush_block("entry", &mut code, &mut blocks);
    insert_invalid_block(enum_class, &mut blocks);
    make_entry_function(
        ENUM_FROM_UNION_DISCRIMINANT_METHOD,
        static_signature(&make_params1("discriminant", &Type::I64), &class_type(enum_class)),
        blocks,
    )
}

/// A function with several blocks that starts at the block `entry`.
pub open spec fn entry_function(
    name: Text,
    signature: SignatureModel,
    blocks: Map<Text, BasicBlockModel>,
) -> FunctionModel {
    plain_function(name, signature, CodeBlockModel { entry: "entry"@, basic_blocks: blocks })
}

/// A function with several blocks that starts at the block `entry`.
pub fn make_entry_function(
    name: &str,
    signature: Signature,
    blocks: NameMap<BasicBlock>,
) -> (r: Function)
    ensures
        r.deep_view() == entry_function(name@, signature.deep_view(), blocks.deep_view()),
{
    make_function(
        name,
        signature,
        CodeBlock { entry: "entry".to_string(), basic_blocks: blocks },
    )
}

/// The types of the fields of a variant that have a JVM value.
pub open spec fn valued_types(fields: Seq<Field>, n: nat) -> Seq<TypeModel>
    decreases n,
{
    if n == 0 || n > fields.len() {
        Seq::empty()
    } else {
        let rest = valued_types(fields, (n - 1) as nat);
        let ty = lowered(fields[n - 1].ty);
        if has_value(ty) {
            rest.push(ty)
        } else {
            rest
        }
    }
}

fn collect_valued_types(fields: &Vec<Field>) -> (r: Vec<Type>)
    ensures
        r.deep_view() == valued_types(fields@, fields@.len()),
{
    let mut r: Vec<Type> = Vec::new();
    assert(r.deep_view() =~= valued_types(fields@, 0));
    for i in 0..fields.len()
        invariant
            r.deep_view() == valued_types(fields@, i as nat),
    {
        let ty = fields[i].ty.jvm_type();
        if ty.has_jvm_value() {
            let ghost before = r.deep_view();
            let ghost model = ty.deep_view();
            r.push(ty);
            assert(r.deep_view() =~= before.push(model));
        }
    }
    r
}

/// The variants of an enum with the types of their fields.
pub open spec fn variant_types(variants: Seq<Variant>) -> Seq<(Text, Seq<TypeModel>)> {
    Seq::new(
        variants.len(),
        |i: int|
            (variants[i].name@, valued_types(variants[i].fields@, variants[i].fields@.len())),
    )
}

fn collect_variant_types(variants: &Vec<Variant>) -> (r: Vec<(String, Vec<Type>)>)
    ensures
        r.deep_view() == variant_types(variants@),
{
    let mut r: Vec<(String, Vec<Type>)> = Vec::new();
    let ghost whole = variant_types(variants@);
    for i in 0..variants.len()
        invariant
            whole == variant_types(variants@),
            r@.len() == i,
            forall|k: int| #![trigger r@[k]] 0 <= k < i ==> r@[k].deep_view() == whole[k],
    {
        r.push((variants[i].name.clone(), collect_valued_types(&variants[i].fields)));
    }
    assert(r.deep_view() =~= whole);
    r
}

/// The method that tests two values of an enum for equality.
pub open spec fn enum_equality(variants: Seq<Variant>) -> DataTypeMethodModel {
    DataTypeMethodModel::AdtHelperMethod {
        kind: AdtHelperKindModel::PartialEqEnum { variants: variant_types(variants) },
    }
}

/// The method that tests two values of an enum for equality.
pub fn make_enum_equality(variants: &Vec<Variant>) -> (r: DataTypeMethod)
    ensures
        r.deep_view() == enum_equality(variants@),
{
    DataTypeMethod::AdtHelperMethod {
        kind: AdtHelperKind::PartialEqEnum { variants: collect_variant_types(variants) },
    }
}

/// The method that tells whether a value is of a variant.
pub open spec fn variant_test(index: u32) -> DataTypeMethodModel {
    DataTypeMethodModel::AdtHelperMethod {
        kind: AdtHelperKindModel::IsVariant { variant_idx: index },
    }
}

/// The method that tells whether a value is of a variant.
pub fn make_variant_test(index: u32) -> (r: DataTypeMethod)
    ensures
        r.deep_view() == variant_test(index),
{
    DataTypeMethod::AdtHelperMethod { kind: AdtHelperKind::IsVariant { variant_idx: index } }
}

/// The class of an enum with the methods that every enum has: which variant a value is, and
/// equality; an option also tells whether it is empty.
#[verifier::opaque]
pub open spec fn enum_helpers(
    class_name: Text,
    variants: Seq<Variant>,
    is_option: bool,
    defs: DefinitionsModel,
) -> DefinitionsModel {
    let defs = method_kept(class_name, "getVariantIdx"@, (constant_method(Type::I32, None)), defs);
    let defs = method_kept(class_name, "eq"@, enum_equality(variants), defs);
    if is_option {
        let defs = method_kept(class_name, "is_none"@, variant_test(0), defs);
        let defs = method_kept(class_name, "is_some"@, variant_test(1), defs);
        defs
    } else {
        defs
    }
}

/// Gives the class of an enum the methods that every enum has.
pub fn add_enum_helper_methods(
    class_name: &str,
    variants: &Vec<Variant>,
    is_option: bool,
    defs: &mut Definitions,
)
    ensures
        final(defs).deep_view() == enum_helpers(
            class_name@,
            variants@,
            is_option,
            old(defs).deep_view(),
        ),
{
    proof {
        reveal(enum_helpers);
    }
    keep_method(class_name, "getVariantIdx", default_method(&Type::I32), defs);
    keep_method(class_name, "eq", make_enum_equality(variants), defs);
    if is_option {
        keep_method(class_name, "is_none", make_variant_test(0), defs);
        keep_method(class_name, "is_some", make_variant_test(1), defs);
    } else {

    }
}

/// The class of an enum with its discriminant method, if its discriminants fit the JVM.
#[verifier::opaque]
pub open spec fn enum_discriminant(
    class_name: Text,
    adt: Adt,
    defs: DefinitionsModel,
) -> DefinitionsModel {
    if has_narrow_discriminants(adt) {
        let defs = method_kept(
            class_name,
            ENUM_UNION_DISCRIMINANT_METHOD@,
            (constant_method(Type::I64, None)),
            defs,
        );
        defs
    } else {
        defs
    }
}

/// Gives the class of an enum its discriminant method.
pub fn keep_enum_discriminant(class_name: &str, adt: &Adt, defs: &mut Definitions)
    ensures
        final(defs).deep_view() == enum_discriminant(class_name@, *adt, old(defs).deep_view()),
{
    proof {
        reveal(enum_discriminant);
    }
    if enum_union_discriminant_supported(adt) {
        keep_method(class_name, ENUM_UNION_DISCRIMINANT_METHOD, default_method(&Type::I64), defs);
    } else {

    }
}

/// The class of an enum with the method that makes values from discriminants, if it has no fields.
#[verifier::opaque]
pub open spec fn enum_factory_kept(
    ty: RustType,
    adt: Adt,
    defs: DefinitionsModel,
) -> DefinitionsModel {
    match (simple_enum_size(adt, size_of(ty))) {
        Ok(size) => {
            let defs = method_kept(
                adt.class_name@,
                ENUM_FROM_UNION_DISCRIMINANT_METHOD@,
                (DataTypeMethodModel::Function(enum_factory(adt.variants@, size, adt.class_name@))),
                defs,
            );
            defs
        },
        Err(_) => {
            defs
        },
    }
}

/// Gives the class of an enum the method that makes values from discriminants.
pub fn keep_enum_factory(ty: &RustType, adt: &Adt, defs: &mut Definitions)
    ensures
        final(defs).deep_view() == enum_factory_kept(*ty, *adt, old(defs).deep_view()),
{
    proof {
        reveal(enum_factory_kept);
    }
    match simple_enum_union_size(adt, ty) {
        Ok(size) => {
            keep_method(
                adt.class_name.as_str(),
                ENUM_FROM_UNION_DISCRIMINANT_METHOD,
                function_method(
                    enum_from_union_discriminant_function(
                        &adt.variants,
                        size,
                        adt.class_name.as_str(),
                    ),
                ),
                defs,
            );
        },
        Err(_) => {

        },
    }
}

/// A discriminant as a number of 64 bits.
pub open spec fn discriminant_value(variant: Variant) -> i64 {
    variant.discriminant as i64
}

fn discriminant_constant(variant: &Variant) -> (r: Constant)
    ensures
        r.deep_view() == ConstantModel::I64(discriminant_value(*variant)),
{
    Constant::I64(variant.discriminant as i64)
}

fn index_constant(index: usize) -> (r: Constant)
    ensures
        r.deep_view() == ConstantModel::I32(index as i32),
{
    Constant::I32(index as i32)
}

/// The class of a variant that was there before: only its discriminant method is made sure of.
#[verifier::opaque]
pub open spec fn variant_discriminant(
    class_name: Text,
    adt: Adt,
    variant: Variant,
    defs: DefinitionsModel,
) -> DefinitionsModel {
    if has_narrow_discriminants(adt) {
        let defs = method_kept(
            class_name,
            ENUM_UNION_DISCRIMINANT_METHOD@,
            (constant_method(Type::I64, Some((ConstantModel::I64(discriminant_value(variant)))))),
            defs,
        );
        defs
    } else {
        defs
    }
}

/// Makes sure that the class of a variant has its discriminant method.
pub fn keep_variant_discriminant(
    class_name: &str,
    adt: &Adt,
    variant: &Variant,
    defs: &mut Definitions,
)
    ensures
        final(defs).deep_view() == variant_discriminant(
            class_name@,
            *adt,
            *variant,
            old(defs).deep_view(),
        ),
{
    proof {
        reveal(variant_discriminant);
    }
    if enum_union_discriminant_supported(adt) {
        keep_method(
            class_name,
            ENUM_UNION_DISCRIMINANT_METHOD,
            value_method(&Type::I64, discriminant_constant(variant)),
            defs,
        );
    } else {

    }
}

/// The discriminant method of a variant, if the discriminants of its enum fit the JVM.
#[verifier::opaque]
pub open spec fn discriminant_put(
    adt: Adt,
    variant: Variant,
    methods: Map<Text, DataTypeMethodModel>,
) -> Map<Text, DataTypeMethodModel> {
    if has_narrow_discriminants(adt) {
        let methods = value_put(
            ENUM_UNION_DISCRIMINANT_METHOD@,
            (constant_method(Type::I64, Some((ConstantModel::I64(discriminant_value(variant)))))),
            methods,
        );
        methods
    } else {
        methods
    }
}

/// Makes the discriminant method of a variant.
pub fn put_discriminant(adt: &Adt, variant: &Variant, methods: &mut NameMap<DataTypeMethod>)
    ensures
        final(methods).deep_view() == discriminant_put(*adt, *variant, old(methods).deep_view()),
{
    proof {
        reveal(discriminant_put);
    }
    if enum_union_discriminant_supported(adt) {
        put_value(
            ENUM_UNION_DISCRIMINANT_METHOD,
            value_method(&Type::I64, discriminant_constant(variant)),
            methods,
        );
    } else {

    }
}

/// Methods with one more.
pub open spec fn value_put(
    name: Text,
    method: DataTypeMethodModel,
    methods: Map<Text, DataTypeMethodModel>,
) -> Map<Text, DataTypeMethodModel> {
    methods.insert(name, method)
}

/// Adds a method.
pub fn put_value(name: &str, method: DataTypeMethod, methods: &mut NameMap<DataTypeMethod>)
    ensures
        final(methods).deep_view() == value_put(
            name@,
            method.deep_view(),
            old(methods).deep_view(),
        ),
{
    let ghost before = methods.deep_view();
    let ghost model = method.deep_view();
    methods.insert(name.to_string(), method);
    assert(methods.deep_view() =~= before.insert(name@, model));
}

/// The fields of the class of a variant that have a JVM value, with their names.
pub open spec fn slot_fields(slots: Seq<Option<SlotModel>>, n: nat) -> Seq<(Text, TypeModel)>
    decreases n,
{
    if n == 0 || n > slots.len() {
        Seq::empty()
    } else {
        let rest = slot_fields(slots, (n - 1) as nat);
        match slots[n - 1] {
            Some(slot) => rest.push((slot.name, slot.ty)),
            None => rest,
        }
    }
}

/// The fields of a class, made of its slots.
pub fn fields_of_slots(slots: &Vec<Option<Slot>>) -> (r: Vec<(String, Type)>)
    ensures
        r.deep_view() == slot_fields(slots.deep_view(), slots@.len()),
{
    let mut r: Vec<(String, Type)> = Vec::new();
    let ghost model = slots.deep_view();
    assert(r.deep_view() =~= slot_fields(model, 0));
    for i in 0..slots.len()
        invariant
            model == slots.deep_view(),
            r.deep_view() == slot_fields(model, i as nat),
    {
        assert(model[i as int] == slots@[i as int].deep_view());
        match &slots[i] {
            Some(slot) => {
                let ghost before = r.deep_view();
                r.push((slot.name.clone(), slot.ty.dup()));
                assert(r.deep_view() =~= before.push((slot.name@, slot.ty.deep_view())));
            },
            None => {},
        }
    }
    r
}

/// The class of a variant: its fields, its number, its discriminant and how its fields are dropped.
#[verifier::opaque]
pub open spec fn variant_class_completed(
    adt: Adt,
    variant: Variant,
    index: usize,
    defs: DefinitionsModel,
) -> DefinitionsModel {
    let class_name = (adt.class_name@ + "$"@ + variant.name@);
    let methods = no_methods();
    let methods = value_put(
        "getVariantIdx"@,
        (constant_method(Type::I32, Some((ConstantModel::I32(index as i32))))),
        methods,
    );
    let methods = discriminant_put(adt, variant, methods);
    let methods = value_put(
        ENUM_DROP_FIELDS_METHOD@,
        (DataTypeMethodModel::Function(variant_drop_fields(variant.fields@, class_name))),
        methods,
    );
    let defs = variant_completed(
        class_name,
        adt.class_name@,
        (slot_fields(slots_of_variant(variant.fields@), slots_of_variant(variant.fields@).len())),
        methods,
        defs,
    );
    defs
}

/// Completes the class of a variant.
pub fn define_variant_class(adt: &Adt, variant: &Variant, index: usize, defs: &mut Definitions)
    ensures
        final(defs).deep_view() == variant_class_completed(
            *adt,
            *variant,
            index,
            old(defs).deep_view(),
        ),
{
    proof {
        reveal(variant_class_completed);
    }
    let class_name = variant_class_name(adt.class_name.as_str(), variant.name.as_str());
    let mut methods = empty_methods();
    put_value("getVariantIdx", value_method(&Type::I32, index_constant(index)), &mut methods);
    put_discriminant(adt, variant, &mut methods);
    put_value(
        ENUM_DROP_FIELDS_METHOD,
        function_method(enum_variant_drop_glue_function(&variant.fields, class_name.as_str())),
        &mut methods,
    );
    complete_variant(
        class_name.as_str(),
        adt.class_name.as_str(),
        fields_of_slots(&plan_variant_slots(&variant.fields)),
        methods,
        defs,
    );
}

/// Definitions in which the class of each variant from one on is defined.
pub open spec fn variant_placeholders(
    variants: Seq<Variant>,
    enum_class: Text,
    from: nat,
    defs: DefinitionsModel,
) -> DefinitionsModel
    decreases variants, 0nat, variants.len() - from,
{
    if from >= variants.len() {
        defs
    } else {
        let item = variants[from as int];
        let defs = class_ensured((enum_class + "$"@ + item.name@), false, (Some(enum_class)), defs);
        variant_placeholders(variants, enum_class, from + 1, defs)
    }
}

/// Defines the class of each variant.
pub fn insert_variant_placeholders(
    variants: &Vec<Variant>,
    enum_class: &str,
    defs: &mut Definitions,
)
    ensures
        final(defs).deep_view() == variant_placeholders(
            variants@,
            enum_class@,
            0,
            old(defs).deep_view(),
        ),
{
    let ghost start = variant_placeholders(variants@, enum_class@, 0, defs.deep_view());
    for i in 0..variants.len()
        invariant
            variant_placeholders(variants@, enum_class@, i as nat, defs.deep_view()) == start,
    {
        let item = &variants[i];
        ensure_class(
            variant_class_name(enum_class, item.name.as_str()).as_str(),
            false,
            &some_text(enum_class),
            defs,
        );
    }
}

/// Which variants have a class.
pub open spec fn known_variants(
    variants: Seq<Variant>,
    enum_class: Text,
    defs: DefinitionsModel,
) -> Seq<bool> {
    Seq::new(variants.len(), |i: int| is_class(defs, enum_class + "$"@ + variants[i].name@))
}

/// Which variants have a class.
pub fn known_variant_classes(variants: &Vec<Variant>, enum_class: &str, defs: &Definitions) -> (r:
    Vec<bool>)
    ensures
        r.deep_view() == known_variants(variants@, enum_class@, defs.deep_view()),
{
    let mut r: Vec<bool> = Vec::new();
    let ghost whole = known_variants(variants@, enum_class@, defs.deep_view());
    for i in 0..variants.len()
        invariant
            whole == known_variants(variants@, enum_class@, defs.deep_view()),
            r@.len() == i,
            forall|k: int| #![trigger r@[k]] 0 <= k < i ==> r@[k] == whole[k],
    {
        let name = variant_class_name(enum_class, variants[i].name.as_str());
        r.push(is_class_name(defs, name.as_str()));
    }
    assert(r.deep_view() =~= whole);
    r
}

/// Whether an entry of a list holds.
pub open spec fn holds_at(list: Seq<bool>, index: usize) -> bool {
    index < list.len() && list[index as int]
}

/// Whether a list says yes at an index.
pub fn is_held_at(list: &Vec<bool>, index: usize) -> (r: bool)
    ensures
        r == holds_at(list.deep_view(), index),
{
    assert(index < list@.len() ==> list.deep_view()[index as int] == list@[index as int]);
    index < list.len() && list[index]
}

/// Definitions in which the class of each variant from one on is complete: a class that was there
/// before only gets its discriminant method.
pub open spec fn variants_completed(
    variants: Seq<Variant>,
    adt: Adt,
    known: Seq<bool>,
    from: nat,
    defs: DefinitionsModel,
) -> DefinitionsModel
    decreases variants, 0nat, variants.len() - from,
{
    if from >= variants.len() {
        defs
    } else {
        let item = variants[from as int];
        if holds_at(known, (from as usize)) {
            let defs = variant_discriminant((adt.class_name@ + "$"@ + item.name@), adt, item, defs);
            variants_completed(variants, adt, known, from + 1, defs)
        } else {
            let defs = variant_class_completed(adt, item, (from as usize), defs);
            variants_completed(variants, adt, known, from + 1, defs)
        }
    }
}

/// Completes the class of each variant.
pub fn complete_variants(
    variants: &Vec<Variant>,
    adt: &Adt,
    known: &Vec<bool>,
    defs: &mut Definitions,
)
    ensures
        final(defs).deep_view() == variants_completed(
            variants@,
            *adt,
            known.deep_view(),
            0,
            old(defs).deep_view(),
        ),
{
    let ghost start = variants_completed(variants@, *adt, known.deep_view(), 0, defs.deep_view());
    for i in 0..variants.len()
        invariant
            variants_completed(
                variants@,
                *adt,
                known.deep_view(),
                i as nat,
                defs.deep_view(),
            ) == start,
    {
        let item = &variants[i];
        if is_held_at(known, i) {
            keep_variant_discriminant(
                variant_class_name(adt.class_name.as_str(), item.name.as_str()).as_str(),
                adt,
                item,
                defs,
            );
        } else {
            define_variant_class(adt, item, i, defs);
        }
    }
}

/// A value as a value of an enum: a number becomes the variant with that discriminant, if the class
/// of the enum can make values from discriminants.
#[verifier::opaque]
pub open spec fn enum_adapted(
    source: OperandModel,
    target_ty: TypeModel,
    temp_prefix: Text,
    defs: DefinitionsModel,
    code: CodeModel,
) -> (CodeModel, OperandModel) {
    match target_ty {
        Type::Class(enum_class) => {
            if is_reference(operand_type(source)) {
                (code, source)
            } else if class_has_method(defs, enum_class, ENUM_FROM_UNION_DISCRIMINANT_METHOD@) {
                let bits = (temp_prefix + "_enum_discriminant"@);
                let code = emit(code, converts(source, Type::I64, bits));
                let dest = (temp_prefix + "_enum_value"@);
                let code = emit(
                    code,
                    calls_static(
                        dest,
                        enum_class,
                        ENUM_FROM_UNION_DISCRIMINANT_METHOD@,
                        static_method(params1("discriminant"@, Type::I64), target_ty),
                        args1(variable(bits, Type::I64)),
                    ),
                );
                (code, variable(dest, target_ty))
            } else {
                (code, source)
            }
        },
        _ => {
            (code, source)
        },
    }
}

/// Turns a number into a value of an enum.
pub fn adapt_simple_enum_operand(
    source: &Operand,
    target_ty: &Type,
    temp_prefix: &str,
    defs: &Definitions,
    code: &mut Code,
) -> (r: Operand)
    ensures
        (final(code).deep_view(), r.deep_view()) == enum_adapted(
            source.deep_view(),
            target_ty.deep_view(),
            temp_prefix@,
            defs.deep_view(),
            old(code).deep_view(),
        ),
{
    proof {
        reveal(enum_adapted);
    }
    match target_ty {
        Type::Class(enum_class) => {
            if Type::is_jvm_reference_type(&Operand::get_type(source)) {
                source.dup()
            } else if has_method(defs, enum_class.as_str(), ENUM_FROM_UNION_DISCRIMINANT_METHOD) {
                let bits = cat2(temp_prefix, "_enum_discriminant");
                code.push(cast(source, &Type::I64, bits.as_str()));
                let dest = cat2(temp_prefix, "_enum_value");
                code.push(
                    static_call(
                        dest.as_str(),
                        enum_class.as_str(),
                        ENUM_FROM_UNION_DISCRIMINANT_METHOD,
                        &static_signature(&make_params1("discriminant", &Type::I64), target_ty),
                        &make_args1(&operand_var(bits.as_str(), &Type::I64)),
                    ),
                );
                operand_var(dest.as_str(), target_ty)
            } else {
                source.dup()
            }
        },
        _ => {
            source.dup()
        },
    }
}

} // verus!
