//! What the classes of an enum say of its variants.
use crate::code::{CodeModel, DefinitionsModel, args1};
use crate::definitions::{is_class, methods_of};
use crate::descriptor::is_reference;
use crate::enum_class::{
    discriminant_put, enum_adapted, enum_factory, enum_factory_kept, enum_helpers, holds_at,
    known_variants, simple_enum_size, slot_fields, variant_class_completed, variant_discriminant,
    variant_placeholders, variants_completed,
};
use crate::layout::{slots_of_variant, valued_before};
use crate::lowering::{adt_defined, defined_variants, drop_defined, enum_defined};
use crate::oomir::{
    AdtHelperKindModel, ConstantModel, DataTypeMethodModel, DataTypeModel, InstructionModel,
    Operand, OperandModel, Text, Type, TypeModel, has_value, operand_type,
};
use crate::rust_type::{Adt, DiscriminantKind, Field, RustType, Variant, lowered, size_of};
use crate::text::decimal_text;
use vstd::prelude::*;
use vstd::string::*;

verus! {

/// The class of a variant.
pub open spec fn class_of(adt: Adt, i: int) -> Text {
    adt.class_name@ + "$"@ + adt.variants@[i].name@
}

/// Whether different variants have different names.
pub open spec fn names_differ(variants: Seq<Variant>) -> bool {
    forall|i: int, j: int|
        0 <= i < j < variants.len() ==> (#[trigger] variants[i]).name@ != (
        #[trigger] variants[j]).name@
}

/// Whether definitions are the same but for one name.
pub open spec fn same_but(a: DefinitionsModel, b: DefinitionsModel, name: Text) -> bool {
    forall|other: Text|
        #![trigger b.dom().contains(other)]
        #![trigger b[other]]
        other != name ==> (a.dom().contains(other) <==> b.dom().contains(other)) && a[other]
            == b[other]
}

proof fn classes_differ(adt: Adt, i: int, j: int)
    requires
        names_differ(adt.variants@),
        0 <= i < adt.variants@.len(),
        0 <= j < adt.variants@.len(),
        i != j,
    ensures
        class_of(adt, i) != class_of(adt, j),
{
    let n = (adt.class_name@ + "$"@).len() as int;
    assert(class_of(adt, i).skip(n) =~= adt.variants@[i].name@);
    assert(class_of(adt, j).skip(n) =~= adt.variants@[j].name@);
}

/// What the class of a variant says: which variant it is, its discriminant where that is a number
/// of at most 64 bits, that it is one of the enum's classes, and which fields it has.
pub open spec fn tells_its_variant(adt: Adt, i: int, class: DataTypeModel) -> bool {
    let variant = adt.variants@[i];
    &&& class matches DataTypeModel::Class { fields, is_abstract, methods, super_class, .. }
    &&& !is_abstract
    &&& super_class == Some(adt.class_name@)
    &&& methods.contains_key("getVariantIdx"@)
    &&& methods["getVariantIdx"@] == DataTypeMethodModel::SimpleConstantReturn(
        Type::I32,
        Some(ConstantModel::I32(i as i32)),
    )
    &&& (match adt.discriminants {
        DiscriminantKind::Int(kind) => !(kind is I128),
        DiscriminantKind::Uint(kind) => !(kind is U128),
        DiscriminantKind::Other => false,
    }) ==> methods.contains_key("_unionDiscriminant"@) && methods["_unionDiscriminant"@]
        == DataTypeMethodModel::SimpleConstantReturn(
        Type::I64,
        Some(ConstantModel::I64(variant.discriminant as i64)),
    )
    &&& methods.contains_key("_rust_drop_fields"@)
    &&& methods["_rust_drop_fields"@] is Function
    &&& holds_fields(fields, variant.fields@)
}

/// Whether the fields of a class are the parts of a variant that have JVM values, in their order,
/// with their numbers as names.
pub open spec fn holds_fields(fields: Seq<(Text, TypeModel)>, parts: Seq<Field>) -> bool {
    &&& fields.map_values(|f: (Text, TypeModel)| f.1) == parts.map_values(
        |part: Field| lowered(part.ty),
    ).filter(|ty: TypeModel| has_value(ty))
    &&& forall|n: int|
        0 <= n < fields.len() ==> (#[trigger] fields[n]).0 == "field"@ + decimal_text(n as nat)
}

proof fn slots_hold_fields(parts: Seq<Field>, n: nat)
    requires
        n <= parts.len(),
    ensures
        holds_fields(slot_fields(slots_of_variant(parts), n), parts.take(n as int)),
        slot_fields(slots_of_variant(parts), n).len() == valued_before(parts, n),
    decreases n,
{
    reveal(Seq::filter);
    let lower = |part: Field| lowered(part.ty);
    let valued = |ty: TypeModel| has_value(ty);
    let type_of = |f: (Text, TypeModel)| f.1;
    let now = slot_fields(slots_of_variant(parts), n);
    if n == 0 {
        assert(now.map_values(type_of) =~= parts.take(0).map_values(lower).filter(valued));
    } else {
        let less = (n - 1) as nat;
        slots_hold_fields(parts, less);
        let before = slot_fields(slots_of_variant(parts), less);
        let all = parts.take(n as int).map_values(lower);
        assert(all.drop_last() =~= parts.take(less as int).map_values(lower));
        assert(all.last() == lowered(parts[less as int].ty));
        if has_value(lowered(parts[less as int].ty)) {
            assert(now.map_values(type_of) =~= before.map_values(type_of).push(all.last()));
        } else {
            assert(now == before);
        }
    }
}

/// Completing the class of a variant makes it tell its variant and leaves the others as they are.
proof fn completed_class_tells(adt: Adt, i: int, defs: DefinitionsModel)
    requires
        0 <= i < adt.variants@.len() <= usize::MAX,
        is_class(defs, class_of(adt, i)),
    ensures
        ({
            let made = variant_class_completed(adt, adt.variants@[i], i as usize, defs);
            &&& same_but(defs, made, class_of(adt, i))
            &&& is_class(made, class_of(adt, i))
            &&& tells_its_variant(adt, i, made[class_of(adt, i)])
        }),
{
    reveal(variant_class_completed);
    reveal(discriminant_put);
    reveal_strlit("getVariantIdx");
    reveal_strlit("_unionDiscriminant");
    reveal_strlit("_rust_drop_fields");
    assert("getVariantIdx"@.len() == 13 && "_unionDiscriminant"@.len() == 18
        && "_rust_drop_fields"@.len() == 17);
    let parts = adt.variants@[i].fields@;
    slots_hold_fields(parts, parts.len());
    assert(parts.take(parts.len() as int) =~= parts);
}

/// Completing variants changes only their classes.
proof fn completing_keeps(
    adt: Adt,
    known: Seq<bool>,
    from: nat,
    defs: DefinitionsModel,
    name: Text,
)
    requires
        adt.variants@.len() <= usize::MAX,
        forall|j: int| from <= j < adt.variants@.len() ==> #[trigger] class_of(adt, j) != name,
    ensures
        variants_completed(adt.variants@, adt, known, from, defs).dom().contains(name)
            <==> defs.dom().contains(name),
        variants_completed(adt.variants@, adt, known, from, defs)[name] == defs[name],
    decreases adt.variants@.len() - from,
{
    if from < adt.variants@.len() {
        reveal(variant_class_completed);
        reveal(variant_discriminant);
        assert(class_of(adt, from as int) != name);
        let item = adt.variants@[from as int];
        let next = if holds_at(known, from as usize) {
            variant_discriminant(class_of(adt, from as int), adt, item, defs)
        } else {
            variant_class_completed(adt, item, from as usize, defs)
        };
        completing_keeps(adt, known, from + 1, next, name);
    }
}

/// Completing the variants from one on completes each that was not there.
proof fn completed_classes_tell(
    adt: Adt,
    known: Seq<bool>,
    from: nat,
    defs: DefinitionsModel,
    i: int,
)
    requires
        names_differ(adt.variants@),
        from <= i < adt.variants@.len() <= usize::MAX,
        !holds_at(known, i as usize),
        is_class(variants_completed(adt.variants@, adt, known, from, defs), class_of(adt, i)),
    ensures
        tells_its_variant(
            adt,
            i,
            variants_completed(adt.variants@, adt, known, from, defs)[class_of(adt, i)],
        ),
    decreases adt.variants@.len() - from,
{
    let item = adt.variants@[from as int];
    let name = class_of(adt, i);
    let next = if holds_at(known, from as usize) {
        variant_discriminant(class_of(adt, from as int), adt, item, defs)
    } else {
        variant_class_completed(adt, item, from as usize, defs)
    };
    assert(variants_completed(adt.variants@, adt, known, from, defs) == variants_completed(
        adt.variants@,
        adt,
        known,
        from + 1,
        next,
    ));
    if from == i {
        assert forall|j: int| from + 1 <= j < adt.variants@.len() implies #[trigger] class_of(
            adt,
            j,
        ) != name by {
            classes_differ(adt, i, j);
        }
        completing_keeps(adt, known, from + 1, next, name);
        if is_class(defs, name) {
            completed_class_tells(adt, i, defs);
        } else {
            reveal(variant_class_completed);
        }
    } else {
        completed_classes_tell(adt, known, from + 1, next, i);
    }
}

proof fn placeholders_keep(
    adt: Adt,
    from: nat,
    defs: DefinitionsModel,
    name: Text,
)
    requires
        defs.dom().contains(name),
    ensures
        variant_placeholders(adt.variants@, adt.class_name@, from, defs).dom().contains(name),
        variant_placeholders(adt.variants@, adt.class_name@, from, defs)[name] == defs[name],
    decreases adt.variants@.len() - from,
{
    if from < adt.variants@.len() {
        let item = adt.variants@[from as int];
        let more = crate::classes::class_ensured(
            adt.class_name@ + "$"@ + item.name@,
            false,
            Some(adt.class_name@),
            defs,
        );
        placeholders_keep(adt, from + 1, more, name);
    }
}

/// Once an enum is defined, the class of each of its variants that was not there before tells which
/// variant it is, its discriminant and its fields.
pub proof fn defined_variants_tell_themselves(
    ty: RustType,
    adt: Adt,
    defs: DefinitionsModel,
    i: int,
)
    requires
        adt.shape is Enum,
        names_differ(adt.variants@),
        0 <= i < adt.variants@.len() <= usize::MAX,
        !defs.dom().contains(class_of(adt, i)),
        is_class(adt_defined(ty, adt, defs), class_of(adt, i)),
    ensures
        tells_its_variant(adt, i, adt_defined(ty, adt, defs)[class_of(adt, i)]),
{
    reveal(drop_defined);
    let name = class_of(adt, i);
    let enum_class = adt.class_name@;
    assert(name != enum_class) by {
        reveal_strlit("$");
        assert(name.len() > enum_class.len());
    }
    let made = enum_defined(ty, adt, defs);
    assert(adt_defined(ty, adt, defs) == drop_defined(ty, enum_class, made));
    assert(made[name] == adt_defined(ty, adt, defs)[name]);
    let d1 = crate::classes::class_ensured(enum_class, true, None::<Text>, defs);
    let known = known_variants(adt.variants@, enum_class, d1);
    let d2 = variant_placeholders(adt.variants@, enum_class, 0, d1);
    let d3 = defined_variants(adt.variants@, 0, d2);
    let d4 = enum_helpers(enum_class, adt.variants@, (adt.role is OptionEnum), d3);
    let d5 = crate::classes::method_kept(
        enum_class,
        "_rust_drop_fields"@,
        crate::classes::constant_method(Type::Void, None),
        d4,
    );
    let d6 = crate::enum_class::enum_discriminant(enum_class, adt, d5);
    let d7 = enum_factory_kept(ty, adt, d6);
    assert(made == variants_completed(adt.variants@, adt, known, 0, d7));
    assert(!holds_at(known, i as usize));
    completed_classes_tell(adt, known, 0, d7, i);
}

/// Different variants of an enum never answer the same number.
pub proof fn variants_answer_different_numbers(
    ty: RustType,
    adt: Adt,
    defs: DefinitionsModel,
    i: int,
    j: int,
)
    requires
        adt.shape is Enum,
        names_differ(adt.variants@),
        0 <= i < j < adt.variants@.len() <= i32::MAX,
        !defs.dom().contains(class_of(adt, i)),
        !defs.dom().contains(class_of(adt, j)),
        is_class(adt_defined(ty, adt, defs), class_of(adt, i)),
        is_class(adt_defined(ty, adt, defs), class_of(adt, j)),
    ensures
        methods_of(adt_defined(ty, adt, defs), class_of(adt, i))["getVariantIdx"@] != methods_of(
            adt_defined(ty, adt, defs),
            class_of(adt, j),
        )["getVariantIdx"@],
{
    defined_variants_tell_themselves(ty, adt, defs, i);
    defined_variants_tell_themselves(ty, adt, defs, j);
}

/// A class without methods gets those that every enum has: which variant a value is, equality by
/// variant and fields, and for an option whether it is the first or the second variant.
pub proof fn enums_have_their_helpers(
    class_name: Text,
    variants: Seq<Variant>,
    is_option: bool,
    defs: DefinitionsModel,
)
    requires
        is_class(defs, class_name),
        methods_of(defs, class_name) == Map::<Text, DataTypeMethodModel>::empty(),
    ensures
        ({
            let methods = methods_of(
                enum_helpers(class_name, variants, is_option, defs),
                class_name,
            );
            &&& methods["getVariantIdx"@] == DataTypeMethodModel::SimpleConstantReturn(
                Type::I32,
                None,
            )
            &&& methods["eq"@] matches DataTypeMethodModel::AdtHelperMethod {
                kind: AdtHelperKindModel::PartialEqEnum { variants: compared },
            }
            &&& compared.len() == variants.len()
            &&& forall|i: int|
                0 <= i < variants.len() ==> (#[trigger] compared[i]).0 == variants[i].name@
                    && compared[i].1 == variants[i].fields@.map_values(
                    |part: Field| lowered(part.ty),
                ).filter(|ty: TypeModel| has_value(ty))
            &&& is_option ==> methods["is_none"@] == (DataTypeMethodModel::AdtHelperMethod {
                kind: AdtHelperKindModel::IsVariant { variant_idx: 0 },
            }) && methods["is_some"@] == (DataTypeMethodModel::AdtHelperMethod {
                kind: AdtHelperKindModel::IsVariant { variant_idx: 1 },
            })
            &&& !is_option ==> !methods.contains_key("is_none"@) && !methods.contains_key(
                "is_some"@,
            )
        }),
{
    reveal(enum_helpers);
    reveal_strlit("getVariantIdx");
    reveal_strlit("eq");
    reveal_strlit("is_none");
    reveal_strlit("is_some");
    assert("is_none"@[3] == 'n' && "is_some"@[3] == 's');
    assert("getVariantIdx"@.len() == 13 && "eq"@.len() == 2 && "is_none"@.len() == 7
        && "is_some"@.len() == 7);
    let compared = crate::enum_class::variant_types(variants);
    assert forall|i: int| 0 <= i < variants.len() implies (#[trigger] compared[i]).1
        == variants[i].fields@.map_values(|part: Field| lowered(part.ty)).filter(
        |ty: TypeModel| has_value(ty),
    ) by {
        let parts = variants[i].fields@;
        types_are_filtered(parts, parts.len());
        assert(parts.take(parts.len() as int) =~= parts);
    }
}

proof fn types_are_filtered(parts: Seq<Field>, n: nat)
    requires
        n <= parts.len(),
    ensures
        crate::enum_class::valued_types(parts, n) == parts.take(n as int).map_values(
            |part: Field| lowered(part.ty),
        ).filter(|ty: TypeModel| has_value(ty)),
    decreases n,
{
    reveal(Seq::filter);
    let lower = |part: Field| lowered(part.ty);
    if n > 0 {
        types_are_filtered(parts, (n - 1) as nat);
        let all = parts.take(n as int).map_values(lower);
        assert(all.drop_last() =~= parts.take(n - 1).map_values(lower));
    } else {
        assert(parts.take(0).map_values(lower).filter(|ty: TypeModel| has_value(ty)) =~= Seq::<
            TypeModel,
        >::empty());
    }
}

/// A number is made a value of an enum by the class of the enum, from exactly this number, if that
/// class can do so; an object, and a value of any other type, stays as it is.
pub proof fn numbers_become_their_variant(
    source: OperandModel,
    target_ty: TypeModel,
    prefix: Text,
    defs: DefinitionsModel,
    code: CodeModel,
)
    ensures
        ({
            let (after, value) = enum_adapted(source, target_ty, prefix, defs, code);
            let n = code.instructions.len() as int;
            match target_ty {
                Type::Class(name) => if !is_reference(operand_type(source)) && is_class(defs, name)
                    && methods_of(defs, name).dom().contains("_fromUnionDiscriminant"@) {
                    &&& after.instructions.len() == n + 2
                    &&& after.instructions.take(n) == code.instructions
                    &&& after.instructions[n] matches InstructionModel::Cast { op, ty, dest: bits }
                    &&& op == source
                    &&& ty is I64
                    &&& after.instructions[n + 1] matches InstructionModel::InvokeStatic {
                        dest: Some(made),
                        class_name,
                        method_name,
                        args,
                        ..
                    }
                    &&& class_name == name
                    &&& method_name == "_fromUnionDiscriminant"@
                    &&& args == seq![Operand::Variable { name: bits, ty: Type::<Text>::I64 }]
                    &&& value == (Operand::Variable { name: made, ty: target_ty })
                } else {
                    after == code && value == source
                },
                _ => after == code && value == source,
            }
        }),
{
    reveal(enum_adapted);
    reveal(args1);
    let (after, value) = enum_adapted(source, target_ty, prefix, defs, code);
    let n = code.instructions.len() as int;
    if after.instructions.len() == n + 2 {
        assert(after.instructions.take(n) =~= code.instructions);
        let args = after.instructions[n + 1]->InvokeStatic_args;
        assert(args =~= seq![args[0]]);
    }
}

/// Whether the discriminants of an enum fit into 64 bits.
pub open spec fn fits_long(kind: DiscriminantKind) -> bool {
    match kind {
        DiscriminantKind::Int(kind) => !(kind is I128),
        DiscriminantKind::Uint(kind) => !(kind is U128),
        DiscriminantKind::Other => false,
    }
}

/// An enum is a number if and only if it has variants, none of them has fields, its discriminants
/// fit into 64 bits and it has one, two, four or eight bytes; these are the bytes of the number.
pub proof fn plain_enums_are_numbers(adt: Adt, size: Result<usize, Text>)
    ensures
        simple_enum_size(adt, size) is Ok <==> {
            &&& adt.shape is Enum
            &&& adt.variants@.len() > 0
            &&& forall|i: int|
                0 <= i < adt.variants@.len() ==> (#[trigger] adt.variants@[i]).fields@.len() == 0
            &&& fits_long(adt.discriminants)
            &&& size is Ok
            &&& size->Ok_0 == 1 || size->Ok_0 == 2 || size->Ok_0 == 4 || size->Ok_0 == 8
        },
        simple_enum_size(adt, size) is Ok ==> simple_enum_size(adt, size) == size,
{
}

/// The class of an enum that is a number can make a value of a number; that of any other enum gets
/// no such method.
pub proof fn plain_enums_are_made_of_numbers(ty: RustType, adt: Adt, defs: DefinitionsModel)
    requires
        is_class(defs, adt.class_name@),
        !methods_of(defs, adt.class_name@).dom().contains("_fromUnionDiscriminant"@),
    ensures
        ({
            let after = enum_factory_kept(ty, adt, defs);
            let methods = methods_of(after, adt.class_name@);
            if simple_enum_size(adt, size_of(ty)) is Ok {
                methods == methods_of(defs, adt.class_name@).insert(
                    "_fromUnionDiscriminant"@,
                    DataTypeMethodModel::Function(
                        enum_factory(adt.variants@, size_of(ty)->Ok_0, adt.class_name@),
                    ),
                )
            } else {
                after == defs
            }
        }),
{
    reveal(enum_factory_kept);
    plain_enums_are_numbers(adt, size_of(ty));
}

} // verus!
