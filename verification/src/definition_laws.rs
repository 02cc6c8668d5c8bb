//! What changing definitions leaves as it is.
use crate::classes::{
    class_ensured, class_put, equality_ensured, fields_of, fields_set, method_kept,
};
use crate::code::DefinitionsModel;
use crate::definitions::{
    class_has_method, is_class, method_added, method_ensured, method_removed, methods_added,
    methods_of,
};
use crate::oomir::{AdtHelperKindModel, DataTypeMethodModel, DataTypeModel, Text, TypeModel};
use vstd::prelude::*;
use vstd::string::*;

verus! {

/// Whether definitions are others with at most one of them changed.
pub open spec fn differ_only_in(after: DefinitionsModel, before: DefinitionsModel, name: Text) -> bool {
    forall|other: Text|
        other != name ==> (after.dom().contains(other) <==> before.dom().contains(other))
            && #[trigger] after[other] == before[other]
}

/// Whether a class is another one but for its methods.
pub open spec fn same_but_methods(after: DataTypeModel, before: DataTypeModel) -> bool {
    match (after, before) {
        (
            DataTypeModel::Class { fields: f, is_abstract: a, super_class: s, interfaces: i, .. },
            DataTypeModel::Class { fields, is_abstract, super_class, interfaces, .. },
        ) => f == fields && a == is_abstract && s == super_class && i == interfaces,
        _ => after == before,
    }
}

/// Adding a method to a class gives it the method and changes nothing else; what is not a class
/// gets no methods.
pub proof fn added_methods_are_there(
    defs: DefinitionsModel,
    name: Text,
    method_name: Text,
    method: DataTypeMethodModel,
)
    ensures
        ({
            let after = method_added(defs, name, method_name, method);
            &&& !is_class(defs, name) ==> after == defs
            &&& is_class(defs, name) ==> {
                &&& methods_of(after, name) == methods_of(defs, name).insert(method_name, method)
                &&& is_class(after, name)
                &&& same_but_methods(after[name], defs[name])
                &&& after.dom() == defs.dom()
                &&& forall|other: Text| other != name ==> #[trigger] after[other] == defs[other]
            }
        }),
{
    let after = method_added(defs, name, method_name, method);
    if is_class(defs, name) {
        assert(after.dom() =~= defs.dom());
    }
}

/// A class keeps a method that it has; one that it does not have is added.
pub proof fn kept_methods_stay(
    defs: DefinitionsModel,
    name: Text,
    method_name: Text,
    method: DataTypeMethodModel,
)
    ensures
        class_has_method(defs, name, method_name) ==> method_ensured(
            defs,
            name,
            method_name,
            method,
        ) == defs,
        is_class(defs, name) ==> class_has_method(
            method_ensured(defs, name, method_name, method),
            name,
            method_name,
        ),
        is_class(defs, name) && !class_has_method(defs, name, method_name) ==> methods_of(
            method_ensured(defs, name, method_name, method),
            name,
        )[method_name] == method,
        method_kept(name, method_name, method, defs) == method_ensured(
            defs,
            name,
            method_name,
            method,
        ),
{
}

/// A method that is taken from a class is no longer there, and the others stay; taking away what
/// was added to a class without it gives the class back.
pub proof fn removed_methods_are_gone(
    defs: DefinitionsModel,
    name: Text,
    method_name: Text,
    method: DataTypeMethodModel,
)
    ensures
        !class_has_method(method_removed(defs, name, method_name), name, method_name),
        forall|other: Text|
            other != method_name ==> (class_has_method(
                method_removed(defs, name, method_name),
                name,
                other,
            ) <==> class_has_method(defs, name, other)),
        !class_has_method(defs, name, method_name) ==> method_removed(
            method_added(defs, name, method_name, method),
            name,
            method_name,
        ) == defs,
{
    if is_class(defs, name) && !class_has_method(defs, name, method_name) {
        let added = method_added(defs, name, method_name, method);
        let back = method_removed(added, name, method_name);
        assert(methods_of(added, name).remove(method_name) =~= methods_of(defs, name));
        assert(back[name] == defs[name]);
        assert(back =~= defs);
    }
}

/// Adding methods to a class gives it all of them; a method under one of their names gives way, and
/// the others stay.
pub proof fn all_methods_are_added(
    defs: DefinitionsModel,
    name: Text,
    methods: Map<Text, DataTypeMethodModel>,
    method_name: Text,
)
    requires
        is_class(defs, name),
    ensures
        ({
            let after = methods_added(defs, name, methods);
            &&& class_has_method(after, name, method_name) <==> methods.dom().contains(method_name)
                || class_has_method(defs, name, method_name)
            &&& methods.dom().contains(method_name) ==> methods_of(after, name)[method_name]
                == methods[method_name]
            &&& !methods.dom().contains(method_name) && class_has_method(defs, name, method_name)
                ==> methods_of(after, name)[method_name] == methods_of(defs, name)[method_name]
            &&& same_but_methods(after[name], defs[name])
            &&& differ_only_in(after, defs, name)
        }),
{
}

/// Setting the fields of a class changes nothing but these.
pub proof fn set_fields_are_there(
    name: Text,
    fields: Seq<(Text, TypeModel)>,
    defs: DefinitionsModel,
)
    ensures
        ({
            let after = fields_set(name, fields, defs);
            &&& is_class(defs, name) ==> fields_of(after, name) == fields && methods_of(after, name)
                == methods_of(defs, name) && is_class(after, name)
            &&& !is_class(defs, name) ==> after == defs
            &&& differ_only_in(after, defs, name)
        }),
{
}

/// A class that is put is there with its fields, its methods and its super class, and can be made;
/// a class that is only asked for is left as it is if it is there.
pub proof fn classes_that_are_put_are_there(
    name: Text,
    fields: Seq<(Text, TypeModel)>,
    methods: Map<Text, DataTypeMethodModel>,
    is_abstract: bool,
    super_class: Option<Text>,
    defs: DefinitionsModel,
)
    ensures
        ({
            let after = class_put(name, fields, methods, super_class, defs);
            &&& is_class(after, name)
            &&& fields_of(after, name) == fields
            &&& methods_of(after, name) == methods
            &&& after[name] matches DataTypeModel::Class {
                is_abstract: found,
                super_class: above,
                interfaces,
                ..
            }
            &&& !found
            &&& above == super_class
            &&& interfaces.len() == 0
            &&& differ_only_in(after, defs, name)
        }),
        ({
            let after = class_ensured(name, is_abstract, super_class, defs);
            &&& defs.dom().contains(name) ==> after == defs
            &&& !defs.dom().contains(name) ==> {
                &&& is_class(after, name)
                &&& fields_of(after, name).len() == 0
                &&& methods_of(after, name).dom() == Set::<Text>::empty()
                &&& after[name] matches DataTypeModel::Class {
                    is_abstract: found,
                    super_class: above,
                    ..
                }
                &&& found == is_abstract
                &&& above == super_class
            }
            &&& differ_only_in(after, defs, name)
        }),
{
}

/// A class that has no method to compare its objects gets one that compares all of its fields.
pub proof fn equality_compares_all_fields(name: Text, defs: DefinitionsModel)
    requires
        is_class(defs, name),
        !class_has_method(defs, name, "eq"@),
    ensures
        ({
            let after = equality_ensured(name, defs);
            &&& class_has_method(after, name, "eq"@)
            &&& methods_of(after, name)["eq"@] matches DataTypeMethodModel::AdtHelperMethod {
                kind: AdtHelperKindModel::PartialEqClass { fields },
            }
            &&& fields == fields_of(after, name)
            &&& fields == fields_of(defs, name)
        }),
{
}

} // verus!
