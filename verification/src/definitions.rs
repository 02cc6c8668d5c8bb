//! Changes to the classes and interfaces that a module defines.
use crate::code::{Definitions, DefinitionsModel};
use crate::name_map::NameMap;
use crate::oomir::{
    Duplicate, DataType, DataTypeMethod, DataTypeMethodModel, DataTypeModel, Text, Type, TypeModel,
};
use crate::text::same;
use vstd::prelude::*;
use vstd::string::*;

verus! {

/// Whether a name is that of a class.
pub open spec fn is_class(defs: DefinitionsModel, name: Text) -> bool {
    defs.dom().contains(name) && defs[name] is Class
}

/// Whether a name is that of an interface.
pub open spec fn is_interface(defs: DefinitionsModel, name: Text) -> bool {
    defs.dom().contains(name) && defs[name] is Interface
}

/// The methods of a class.
pub open spec fn methods_of(defs: DefinitionsModel, name: Text) -> Map<Text, DataTypeMethodModel> {
    match defs[name] {
        DataTypeModel::Class { methods, .. } => methods,
        _ => Map::empty(),
    }
}

/// Whether a class has a method.
pub open spec fn class_has_method(defs: DefinitionsModel, name: Text, method: Text) -> bool {
    is_class(defs, name) && methods_of(defs, name).dom().contains(method)
}

/// A class with other methods.
pub open spec fn with_methods(
    data_type: DataTypeModel,
    methods: Map<Text, DataTypeMethodModel>,
) -> DataTypeModel {
    match data_type {
        DataTypeModel::Class { fields, is_abstract, super_class, interfaces, .. } =>
            DataTypeModel::Class { fields, is_abstract, methods, super_class, interfaces },
        other => other,
    }
}

/// Definitions in which a class has one more method, or another method under a name.
pub open spec fn method_added(
    defs: DefinitionsModel,
    name: Text,
    method_name: Text,
    method: DataTypeMethodModel,
) -> DefinitionsModel {
    if is_class(defs, name) {
        defs.insert(
            name,
            with_methods(defs[name], methods_of(defs, name).insert(method_name, method)),
        )
    } else {
        defs
    }
}

/// Definitions in which a class has a method under a name: its own, or else the given one.
pub open spec fn method_ensured(
    defs: DefinitionsModel,
    name: Text,
    method_name: Text,
    method: DataTypeMethodModel,
) -> DefinitionsModel {
    if class_has_method(defs, name, method_name) {
        defs
    } else {
        method_added(defs, name, method_name, method)
    }
}

/// Definitions in which a class does not have a method.
pub open spec fn method_removed(
    defs: DefinitionsModel,
    name: Text,
    method_name: Text,
) -> DefinitionsModel {
    if is_class(defs, name) {
        defs.insert(name, with_methods(defs[name], methods_of(defs, name).remove(method_name)))
    } else {
        defs
    }
}

/// Definitions in which a class has all methods of a map, besides its own under other names.
pub open spec fn methods_added(
    defs: DefinitionsModel,
    name: Text,
    methods: Map<Text, DataTypeMethodModel>,
) -> DefinitionsModel {
    if is_class(defs, name) {
        defs.insert(
            name,
            with_methods(defs[name], methods_of(defs, name).union_prefer_right(methods)),
        )
    } else {
        defs
    }
}

/// A class without fields and methods.
pub open spec fn bare_class(is_abstract: bool, super_class: Option<Text>) -> DataTypeModel {
    DataTypeModel::Class {
        fields: Seq::empty(),
        is_abstract,
        methods: Map::empty(),
        super_class,
        interfaces: Seq::empty(),
    }
}

/// A class without fields and methods.
pub fn make_bare_class(is_abstract: bool, super_class: Option<String>) -> (r: DataType)
    ensures
        r.deep_view() == bare_class(is_abstract, super_class.deep_view()),
{
    let r = DataType::Class {
        fields: Vec::new(),
        is_abstract,
        methods: NameMap::new(),
        super_class,
        interfaces: Vec::new(),
    };
    assert(r.deep_view() == bare_class(is_abstract, super_class.deep_view())) by {
        let model = r.deep_view();
        assert(model->fields =~= Seq::<(Text, TypeModel)>::empty());
        assert(model->Class_methods =~= Map::<Text, DataTypeMethodModel>::empty());
        assert(model->interfaces =~= Seq::<Text>::empty());
    }
    r
}

/// Defines a name.
pub fn define_name(defs: &mut Definitions, name: &str, data_type: DataType)
    ensures
        final(defs).deep_view() == old(defs).deep_view().insert(name@, data_type.deep_view()),
{
    let ghost before = defs.deep_view();
    defs.insert(name.to_string(), data_type);
    assert(defs.deep_view() =~= before.insert(name@, data_type.deep_view()));
}

/// Whether a name is defined.
pub fn is_defined(defs: &Definitions, name: &str) -> (r: bool)
    ensures
        r == defs.deep_view().dom().contains(name@),
{
    defs.contains_key(name)
}

/// Whether a name is that of a class.
pub fn is_class_name(defs: &Definitions, name: &str) -> (r: bool)
    ensures
        r == is_class(defs.deep_view(), name@),
{
    match defs.get(name) {
        Some(DataType::Class { .. }) => true,
        _ => false,
    }
}

/// Whether a name is that of an interface.
pub fn is_interface_name(defs: &Definitions, name: &str) -> (r: bool)
    ensures
        r == is_interface(defs.deep_view(), name@),
{
    match defs.get(name) {
        Some(DataType::Interface { .. }) => true,
        _ => false,
    }
}

/// Whether a class has a method.
pub fn has_method(defs: &Definitions, name: &str, method: &str) -> (r: bool)
    ensures
        r == class_has_method(defs.deep_view(), name@, method@),
{
    match defs.get(name) {
        Some(DataType::Class { methods, .. }) => methods.contains_key(method),
        _ => false,
    }
}

/// Whether a name is that of a class without methods.
pub open spec fn has_no_methods(defs: DefinitionsModel, name: Text) -> bool {
    is_class(defs, name) && methods_of(defs, name) == Map::<Text, DataTypeMethodModel>::empty()
}

/// Whether a name is that of a class without methods.
pub fn is_methodless(defs: &Definitions, name: &str) -> (r: bool)
    ensures
        r == has_no_methods(defs.deep_view(), name@),
{
    match defs.get(name) {
        Some(DataType::Class { methods, .. }) => {
            methods.check();
            let r: bool = methods.len() == 0;
            proof {
                let model = methods_of(defs.deep_view(), name@);
                if r {
                    assert(model =~= Map::<Text, DataTypeMethodModel>::empty());
                } else {
                    assert(methods.map().dom().contains(methods.keys()[0]));
                    assert(model.dom().contains(methods.keys()[0]));
                }
            }
            r
        },
        _ => false,
    }
}

fn empty_interface() -> DataType {
    DataType::Interface { methods: NameMap::new() }
}

/// Gives a class a method; the result tells whether the name is that of a class.
pub fn add_method(
    defs: &mut Definitions,
    name: &str,
    method_name: &str,
    method: DataTypeMethod,
) -> (r: bool)
    ensures
        final(defs).deep_view() == method_added(
            old(defs).deep_view(),
            name@,
            method_name@,
            method.deep_view(),
        ),
        r == is_class(old(defs).deep_view(), name@),
{
    if !is_class_name(defs, name) {
        return false;
    }
    let ghost before = defs.deep_view();
    let taken = defs.replace(name, empty_interface());
    match taken {
        DataType::Class { fields, is_abstract, mut methods, super_class, interfaces } => {
            let ghost had = methods.deep_view();
            methods.insert(method_name.to_string(), method);
            assert(methods.deep_view() =~= had.insert(method_name@, method.deep_view()));
            let changed = DataType::Class { fields, is_abstract, methods, super_class, interfaces };
            let ghost model = changed.deep_view();
            defs.insert(name.to_string(), changed);
            assert(defs.deep_view() =~= before.insert(name@, model));
        },
        other => {
            assert(false);
        },
    }
    true
}

/// Gives a class a method unless it has one under the name.
pub fn ensure_method(defs: &mut Definitions, name: &str, method_name: &str, method: DataTypeMethod)
    ensures
        final(defs).deep_view() == method_ensured(
            old(defs).deep_view(),
            name@,
            method_name@,
            method.deep_view(),
        ),
{
    if !has_method(defs, name, method_name) {
        add_method(defs, name, method_name, method);
    }
}

/// Takes a method from a class.
pub fn remove_method(defs: &mut Definitions, name: &str, method_name: &str)
    ensures
        final(defs).deep_view() == method_removed(old(defs).deep_view(), name@, method_name@),
{
    if !is_class_name(defs, name) {
        return ;
    }
    let ghost before = defs.deep_view();
    let taken = defs.replace(name, empty_interface());
    match taken {
        DataType::Class { fields, is_abstract, methods, super_class, interfaces } => {
            let ghost had = methods.deep_view();
            let methods = methods.without(method_name);
            assert(methods.deep_view() =~= had.remove(method_name@));
            let changed = DataType::Class { fields, is_abstract, methods, super_class, interfaces };
            let ghost model = changed.deep_view();
            defs.insert(name.to_string(), changed);
            assert(defs.deep_view() =~= before.insert(name@, model));
        },
        other => {
            assert(false);
        },
    }
}

/// Takes a definition away.
pub fn remove_definition(defs: &mut Definitions, name: &str)
    ensures
        final(defs).deep_view() == old(defs).deep_view().remove(name@),
{
    let ghost before = defs.deep_view();
    let mut taken: Definitions = NameMap::new();
    std::mem::swap(defs, &mut taken);
    *defs = taken.without(name);
    assert(defs.deep_view() =~= before.remove(name@));
}

/// All entries of one map of methods put into another.
pub fn extend_methods(methods: &mut NameMap<DataTypeMethod>, more: NameMap<DataTypeMethod>)
    ensures
        final(methods).deep_view() == old(methods).deep_view().union_prefer_right(more.deep_view()),
{
    more.check();
    let ghost before = methods.deep_view();
    let ghost added = more.deep_view();
    let ghost keys = more.keys();
    let entries = more.into_entries();
    for entry in it: entries
        invariant
            it.seq().len() == keys.len(),
            keys.no_duplicates(),
            forall|k: Text| #[trigger] added.dom().contains(k) <==> keys.contains(k),
            forall|j: int|
                #![trigger it.seq()[j]]
                0 <= j < keys.len() ==> it.seq()[j].0@ == keys[j] && it.seq()[j].1.deep_view()
                    == added[keys[j]],
            forall|k: Text| #[trigger]
                methods.deep_view().dom().contains(k) <==> before.dom().contains(k) || keys.take(
                    it.index(),
                ).contains(k),
            forall|k: Text| #[trigger]
                methods.deep_view().dom().contains(k) ==> methods.deep_view()[k] == (if keys.take(
                    it.index(),
                ).contains(k) {
                    added[k]
                } else {
                    before[k]
                }),
    {
        let ghost j = it.index();
        let ghost model = methods.deep_view();
        let (key, method) = entry;
        proof {
            assert(keys.take(j + 1) =~= keys.take(j).push(keys[j]));
            assert forall|k: Text|
                #[trigger] keys.take(j + 1).contains(k) <==> keys.take(j).contains(k) || k
                    == keys[j] by {
                if keys.take(j).contains(k) {
                    let m = choose|m: int| 0 <= m < j && keys.take(j)[m] == k;
                    assert(keys.take(j + 1)[m] == k);
                }
                if k == keys[j] {
                    assert(keys.take(j + 1)[j] == k);
                }
            }
        }
        methods.insert(key, method);
        assert(methods.deep_view() =~= model.insert(keys[j], added[keys[j]]));
    }
    assert(keys.take(keys.len() as int) =~= keys);
    assert(methods.deep_view() =~= before.union_prefer_right(added));
}

/// Gives a class methods; those under names that it has replace its own.
pub fn add_methods(defs: &mut Definitions, name: &str, more: NameMap<DataTypeMethod>) -> (r: bool)
    ensures
        final(defs).deep_view() == methods_added(old(defs).deep_view(), name@, more.deep_view()),
        r == is_class(old(defs).deep_view(), name@),
{
    if !is_class_name(defs, name) {
        return false;
    }
    let ghost before = defs.deep_view();
    let taken = defs.replace(name, empty_interface());
    match taken {
        DataType::Class { fields, is_abstract, mut methods, super_class, interfaces } => {
            extend_methods(&mut methods, more);
            let changed = DataType::Class { fields, is_abstract, methods, super_class, interfaces };
            let ghost model = changed.deep_view();
            defs.insert(name.to_string(), changed);
            assert(defs.deep_view() =~= before.insert(name@, model));
        },
        other => {
            assert(false);
        },
    }
    true
}

/// The type of the last field of a name.
pub open spec fn field_type_in(fields: Seq<(Text, TypeModel)>, name: Text) -> Option<TypeModel>
    decreases fields.len(),
{
    if fields.len() == 0 {
        None
    } else if fields.last().0 == name {
        Some(fields.last().1)
    } else {
        field_type_in(fields.drop_last(), name)
    }
}

/// The type that a class gives a field.
pub open spec fn declared_field(defs: DefinitionsModel, class_name: Text, name: Text) -> Option<
    TypeModel,
> {
    if defs.dom().contains(class_name) {
        match defs[class_name] {
            DataTypeModel::Class { fields, .. } => field_type_in(fields, name),
            _ => None,
        }
    } else {
        None
    }
}

/// The type that a class gives a field.
pub fn declared_field_type(defs: &Definitions, class_name: &str, name: &str) -> (r: Option<Type>)
    ensures
        r.deep_view() == declared_field(defs.deep_view(), class_name@, name@),
{
    match defs.get(class_name) {
        Some(DataType::Class { fields, .. }) => {
            let ghost model = fields.deep_view();
            let mut r: Option<Type> = None;
            assert(model.take(0).len() == 0);
            for i in 0..fields.len()
                invariant
                    model == fields.deep_view(),
                    r.deep_view() == field_type_in(model.take(i as int), name@),
            {
                assert(model.take(i + 1).drop_last() =~= model.take(i as int));
                assert(model.take(i + 1).last() == fields@[i as int].deep_view());
                if same(fields[i].0.as_str(), name) {
                    r = Some(fields[i].1.dup());
                }
            }
            assert(model.take(fields@.len() as int) =~= model);
            r
        },
        _ => None,
    }
}

} // verus!
