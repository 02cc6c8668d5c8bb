//! Which methods of a class file a function becomes, and in which fields the parts of a value
//! stand.
use crate::bridges::{can_be_relative, relative_params};
use crate::class_files::{function_form, function_methods, lowered_method};
use crate::class_methods::field_parameters;
use crate::code::DefinitionsModel;
use crate::codec::is_pointer;
use crate::definitions::{declared_field, field_type_in};
use crate::descriptor::method_descriptor;
use crate::interface_files::{explicit, has_settling_method};
use crate::jvm_ops::{JvmMethodModel, MemberRefModel, member};
use crate::layout::{SlotModel, SlotNames, is_nested, slots_of_fields, slots_of_saved};
use crate::oomir::{DataTypeModel, SignatureModel, Text, Type, TypeModel, has_value};
use crate::rust_type::{Field, RustType, TypeKind, lowered};
use crate::text::decimal_text;
use vstd::prelude::*;
use vstd::string::*;

verus! {

/// Whether a function takes a pointer.
pub open spec fn takes_pointer(signature: SignatureModel) -> bool {
    exists|i: int| 0 <= i < signature.params.len() && (#[trigger] signature.params[i]).1 is Pointer
}

/// A function comes with offsets beside its pointers if it is static and in the list of those that
/// do, or if it is static, takes a pointer and has a name that says so.
pub proof fn functions_with_offsets_are_listed_or_named(
    class_name: Text,
    name: Text,
    signature: SignatureModel,
    relative: Seq<MemberRefModel>,
)
    ensures
        ({
            let form = function_form(class_name, name, signature, relative);
            &&& form.is_listed <==> signature.is_static && relative.contains(
                member(class_name, name, method_descriptor(signature)),
            )
            &&& form.is_adapter <==> signature.is_static && takes_pointer(signature) && exists|
                rest: Text,
            |
                name == #[trigger] (rest + "$relative"@)
        }),
{
    let suffix = "$relative"@;
    let form = function_form(class_name, name, signature, relative);
    if form.is_adapter {
        let rest = name.take(name.len() - suffix.len());
        assert(name =~= rest + suffix);
        let i = choose|i: int|
            0 <= i < signature.params.len() && is_pointer(
                (#[trigger] signature.params[i]).1,
            );
        assert(signature.params[i].1 is Pointer);
    }
    if signature.is_static && takes_pointer(signature) && exists|rest: Text|
        name == #[trigger] (rest + suffix) {
        let rest = choose|rest: Text| name == #[trigger] (rest + suffix);
        assert(name.skip(name.len() - suffix.len()) =~= suffix);
        let i = choose|i: int|
            0 <= i < signature.params.len() && (#[trigger] signature.params[i]).1 is Pointer;
        assert(is_pointer(signature.params[i].1));
        assert(can_be_relative(signature));
    }
}

/// A function becomes one method, and a second one that can be called as the function is declared:
/// a listed function one without offsets, and a function of an object one that is static.
pub proof fn functions_become_one_or_two_methods(
    class_name: Text,
    name: Text,
    signature: SignatureModel,
    relative: Seq<MemberRefModel>,
    before: Seq<JvmMethodModel>,
)
    ensures
        ({
            let form = function_form(class_name, name, signature, relative);
            let after = function_methods(class_name, name, signature, relative, before);
            let n = before.len() as int;
            &&& after.len() > n
            &&& after.take(n) == before
            &&& after[n] == lowered_method(name, signature, form)
            &&& after.len() == n + (if form.is_listed || (!signature.is_static
                && signature.params.len() > 0) {
                2int
            } else {
                1int
            })
            &&& after.len() == n + 2 ==> after[n + 1].name == name && after[n + 1].access == 0x0009
            &&& form.is_listed ==> after[n + 1].descriptor == method_descriptor(signature)
        }),
{
    let after = function_methods(class_name, name, signature, relative, before);
    assert(after.take(before.len() as int) =~= before);
}

proof fn first_params_are_alike(
    params: Seq<(Text, TypeModel)>,
    param: (Text, TypeModel),
    n: nat,
)
    requires
        n <= params.len(),
    ensures
        relative_params(params.push(param), n) == relative_params(params, n),
        field_parameters(params.push(param), n) == field_parameters(params, n),
    decreases n,
{
    if n > 0 {
        first_params_are_alike(params, param, (n - 1) as nat);
        assert(params.push(param)[n - 1] == params[n - 1]);
    }
}

/// One more parameter stays as it is where pointers come with offsets; behind a pointer stand two
/// numbers of 64 bits that are named after it.
pub proof fn offsets_stand_behind_their_pointer(
    params: Seq<(Text, TypeModel)>,
    param: (Text, TypeModel),
)
    ensures
        ({
            let before = relative_params(params, params.len());
            let after = relative_params(params.push(param), params.len() + 1);
            after == (if param.1 is Pointer {
                before + seq![
                    param,
                    (param.0 + "$elementOffset"@, Type::I64),
                    (param.0 + "$byteOffset"@, Type::I64),
                ]
            } else {
                before.push(param)
            })
        }),
{
    first_params_are_alike(params, param, params.len());
    assert(params.push(param)[params.len() as int] == param);
    let before = relative_params(params, params.len());
    let after = relative_params(params.push(param), params.len() + 1);
    if param.1 is Pointer {
        assert(after =~= before + seq![
            param,
            (param.0 + "$elementOffset"@, Type::I64),
            (param.0 + "$byteOffset"@, Type::I64),
        ]);
    }
}

/// The parameters that a method is listed with are those with a value, by their names.
pub proof fn parameters_are_listed_by_name(params: Seq<(Text, TypeModel)>, param: (Text, TypeModel))
    ensures
        ({
            let before = field_parameters(params, params.len());
            let after = field_parameters(params.push(param), params.len() + 1);
            if has_value(param.1) {
                &&& after.len() == before.len() + 1
                &&& after.take(before.len() as int) == before
                &&& after.last().name == param.0
            } else {
                after == before
            }
        }),
{
    first_params_are_alike(params, param, params.len());
    assert(params.push(param)[params.len() as int] == param);
    let before = field_parameters(params, params.len());
    let after = field_parameters(params.push(param), params.len() + 1);
    if has_value(param.1) {
        assert(after.take(before.len() as int) =~= before);
    }
}

/// The interface of a function pointer has a method that settles pointers if its call takes one; no
/// other method and no other interface has.
pub proof fn calls_of_function_pointers_settle(
    interface_name: Text,
    name: Text,
    signature: SignatureModel,
)
    ensures
        has_settling_method(interface_name, name, signature) <==> name == "call"@ && takes_pointer(
            signature,
        ) && exists|rest: Text|
            interface_name == #[trigger] ("org/rustlang/runtime/FnPtr_"@ + rest),
{
    let prefix = "org/rustlang/runtime/FnPtr_"@;
    if has_settling_method(interface_name, name, signature) {
        let rest = interface_name.skip(prefix.len() as int);
        assert(interface_name =~= prefix + rest);
        let i = choose|i: int|
            0 <= i < signature.params.len() && is_pointer(
                (#[trigger] explicit(signature).params[i]).1,
            );
        assert(signature.params[i].1 is Pointer);
    }
    if name == "call"@ && takes_pointer(signature) && exists|rest: Text|
        interface_name == #[trigger] (prefix + rest) {
        let rest = choose|rest: Text| interface_name == #[trigger] (prefix + rest);
        assert(interface_name.take(prefix.len() as int) =~= prefix);
        let i = choose|i: int|
            0 <= i < signature.params.len() && (#[trigger] signature.params[i]).1 is Pointer;
        assert(is_pointer(explicit(signature).params[i].1));
        assert(can_be_relative(explicit(signature)));
    }
}

/// The type of a part: that of its field in the class if there is one, and else its own.
pub open spec fn type_of_part(
    fields: Seq<(Text, TypeModel)>,
    name: Text,
    own: TypeModel,
    ty: TypeModel,
) -> bool {
    &&& (exists|k: int| 0 <= k < fields.len() && (#[trigger] fields[k]) == (name, ty)) || ty == own
    &&& (exists|k: int| 0 <= k < fields.len() && (#[trigger] fields[k]).0 == name) ==> exists|
        k: int,
    |
        0 <= k < fields.len() && (#[trigger] fields[k]) == (name, ty)
}

proof fn field_is_found(fields: Seq<(Text, TypeModel)>, name: Text)
    ensures
        field_type_in(fields, name) is Some <==> exists|k: int|
            0 <= k < fields.len() && (#[trigger] fields[k]).0 == name,
        field_type_in(fields, name) matches Some(ty) ==> exists|k: int|
            0 <= k < fields.len() && (#[trigger] fields[k]) == (name, ty),
    decreases fields.len(),
{
    if fields.len() > 0 {
        let n = fields.len() - 1;
        let rest = fields.drop_last();
        field_is_found(rest, name);
        if fields[n].0 == name {
            assert(fields[n] == (name, fields[n].1));
        } else {
            if field_type_in(rest, name) is Some {
                let ty = field_type_in(rest, name)->0;
                let k = choose|k: int|
                    0 <= k < rest.len() && (#[trigger] rest[k]) == (name, ty);
                assert(fields[k] == (name, ty));
            }
            if exists|k: int| 0 <= k < fields.len() && (#[trigger] fields[k]).0 == name {
                let k = choose|k: int| 0 <= k < fields.len() && (#[trigger] fields[k]).0 == name;
                assert(rest[k].0 == name);
            }
        }
    }
}

/// The fields of a class, and none if it is not there.
pub open spec fn fields_in(defs: DefinitionsModel, class_name: Text) -> Seq<(Text, TypeModel)> {
    if defs.dom().contains(class_name) {
        match defs[class_name] {
            DataTypeModel::Class { fields, .. } => fields,
            _ => Seq::empty(),
        }
    } else {
        Seq::empty()
    }
}

/// The name of the field of a part: its own, or one with its number.
pub open spec fn name_of_part(names: SlotNames, index: int, field: Field) -> Text {
    match names {
        SlotNames::Declared => field.name@,
        SlotNames::Elements => "field"@ + decimal_text(index as nat),
        SlotNames::Captures => "arg"@ + decimal_text(index as nat),
    }
}

/// Each part of a value with a JVM value stands in the field of its name, with the type that the
/// class gives the field; a part without a JVM value has no field.
pub proof fn parts_stand_in_their_fields(
    names: SlotNames,
    class_name: Text,
    fields: Seq<Field>,
    defs: DefinitionsModel,
    i: int,
) -> (ty: TypeModel)
    requires
        0 <= i < fields.len(),
    ensures
        ({
            let slots = slots_of_fields(names, class_name, fields, defs);
            let name = name_of_part(names, i, fields[i]);
            &&& slots.len() == fields.len()
            &&& type_of_part(fields_in(defs, class_name), name, lowered(fields[i].ty), ty)
            &&& slots[i] == (if has_value(ty) {
                Some(SlotModel { name, ty })
            } else {
                None
            })
        }),
{
    let name = name_of_part(names, i, fields[i]);
    field_is_found(fields_in(defs, class_name), name);
    match declared_field(defs, class_name, name) {
        Some(ty) => ty,
        None => lowered(fields[i].ty),
    }
}

/// Each saved value of a coroutine with a JVM value stands in the field of its number.
pub proof fn saved_values_stand_in_their_fields(
    class_name: Text,
    saved: Seq<RustType>,
    defs: DefinitionsModel,
    i: int,
) -> (ty: TypeModel)
    requires
        0 <= i < saved.len(),
    ensures
        ({
            let slots = slots_of_saved(class_name, saved, defs);
            let name = "state"@ + decimal_text(i as nat);
            &&& slots.len() == saved.len()
            &&& type_of_part(fields_in(defs, class_name), name, lowered(saved[i]), ty)
            &&& slots[i] == (if has_value(ty) {
                Some(SlotModel { name, ty })
            } else {
                None
            })
        }),
{
    let name = "state"@ + decimal_text(i as nat);
    field_is_found(fields_in(defs, class_name), name);
    match declared_field(defs, class_name, name) {
        Some(ty) => ty,
        None => lowered(saved[i]),
    }
}

/// Arrays, closures, named types and tuples with elements hold other values; numbers, text,
/// pointers, functions and trait objects do not; a pattern changes nothing.
pub proof fn composed_values_are_nested(ty: RustType)
    ensures
        ty.kind is Array || ty.kind is Closure || ty.kind is Adt ==> is_nested(ty),
        ty.kind matches TypeKind::Tuple { elements, .. } ==> (is_nested(ty) <==> elements@.len()
            > 0),
        ty.kind matches TypeKind::Pat(inner) ==> is_nested(ty) == is_nested(*inner),
        is_nested(ty) ==> ty.kind is Array || ty.kind is Closure || ty.kind is Adt || ty.kind
            is Tuple || ty.kind is Pat,
{
    reveal_with_fuel(is_nested, 2);
}

} // verus!
