//! What the definition of a Rust type changes in the classes and interfaces of a module.
use crate::code::{Definitions, DefinitionsModel};
use crate::definitions::{
    add_method, bare_class, class_has_method, define_name, ensure_method, extend_methods,
    is_class, is_class_name, is_defined, is_interface, make_bare_class, method_added,
    method_ensured, methods_of,
};
use crate::name_map::NameMap;
use crate::oomir::{
    Duplicate, AdtHelperKind, AdtHelperKindModel, Constant, ConstantModel, DataType, DataTypeMethod,
    DataTypeMethodModel, DataTypeModel, Function, Signature, SignatureModel, Text, Type,
    TypeModel,
};
use crate::text::same;
use vstd::prelude::*;
use vstd::string::*;

verus! {

/// The fields of a class.
pub open spec fn fields_of(defs: DefinitionsModel, name: Text) -> Seq<(Text, TypeModel)> {
    match defs[name] {
        DataTypeModel::Class { fields, .. } => fields,
        _ => Seq::empty(),
    }
}

/// A class with other fields.
pub open spec fn with_fields(
    data_type: DataTypeModel,
    fields: Seq<(Text, TypeModel)>,
) -> DataTypeModel {
    match data_type {
        DataTypeModel::Class { is_abstract, methods, super_class, interfaces, .. } =>
            DataTypeModel::Class { fields, is_abstract, methods, super_class, interfaces },
        other => other,
    }
}

/// Definitions in which a class has other fields.
pub open spec fn fields_set(
    name: Text,
    fields: Seq<(Text, TypeModel)>,
    defs: DefinitionsModel,
) -> DefinitionsModel {
    if is_class(defs, name) {
        defs.insert(name, with_fields(defs[name], fields))
    } else {
        defs
    }
}

fn placeholder() -> DataType {
    DataType::Interface { methods: NameMap::new() }
}

/// Gives a class other fields.
pub fn set_fields(name: &str, new_fields: Vec<(String, Type)>, defs: &mut Definitions)
    ensures
        final(defs).deep_view() == fields_set(
            name@,
            new_fields.deep_view(),
            old(defs).deep_view(),
        ),
{
    if !is_class_name(defs, name) {
        return ;
    }
    let ghost before = defs.deep_view();
    let taken = defs.replace(name, placeholder());
    match taken {
        DataType::Class { fields, is_abstract, methods, super_class, interfaces } => {
            let changed = DataType::Class {
                fields: new_fields,
                is_abstract,
                methods,
                super_class,
                interfaces,
            };
            let ghost model = changed.deep_view();
            defs.insert(name.to_string(), changed);
            assert(defs.deep_view() =~= before.insert(name@, model));
        },
        other => {
            assert(false);
        },
    }
}

/// Definitions in which a name is defined: as before, or as a class without fields and methods.
pub open spec fn class_ensured(
    name: Text,
    is_abstract: bool,
    super_class: Option<Text>,
    defs: DefinitionsModel,
) -> DefinitionsModel {
    if defs.dom().contains(name) {
        defs
    } else {
        defs.insert(name, bare_class(is_abstract, super_class))
    }
}

/// Defines a class without fields and methods unless the name is defined.
pub fn ensure_class(
    name: &str,
    is_abstract: bool,
    super_class: &Option<String>,
    defs: &mut Definitions,
)
    ensures
        final(defs).deep_view() == class_ensured(
            name@,
            is_abstract,
            super_class.deep_view(),
            old(defs).deep_view(),
        ),
{
    if !is_defined(defs, name) {
        define_name(defs, name, make_bare_class(is_abstract, super_class.dup()));
    }
}

/// Definitions with one more class, which is not abstract and implements nothing.
pub open spec fn class_put(
    name: Text,
    fields: Seq<(Text, TypeModel)>,
    methods: Map<Text, DataTypeMethodModel>,
    super_class: Option<Text>,
    defs: DefinitionsModel,
) -> DefinitionsModel {
    defs.insert(
        name,
        DataTypeModel::Class {
            fields,
            is_abstract: false,
            methods,
            super_class,
            interfaces: Seq::empty(),
        },
    )
}

/// Defines a class.
pub fn put_class(
    name: &str,
    fields: Vec<(String, Type)>,
    methods: NameMap<DataTypeMethod>,
    super_class: &Option<String>,
    defs: &mut Definitions,
)
    ensures
        final(defs).deep_view() == class_put(
            name@,
            fields.deep_view(),
            methods.deep_view(),
            super_class.deep_view(),
            old(defs).deep_view(),
        ),
{
    let class = DataType::Class {
        fields,
        is_abstract: false,
        methods,
        super_class: super_class.dup(),
        interfaces: Vec::new(),
    };
    assert(class.deep_view()->interfaces =~= Seq::<Text>::empty());
    define_name(defs, name, class);
}

/// Definitions in which a class has one more method, or another one under the name.
pub open spec fn method_put(
    class_name: Text,
    name: Text,
    method: DataTypeMethodModel,
    defs: DefinitionsModel,
) -> DefinitionsModel {
    method_added(defs, class_name, name, method)
}

/// Gives a class a method.
pub fn put_method(class_name: &str, name: &str, method: DataTypeMethod, defs: &mut Definitions)
    ensures
        final(defs).deep_view() == method_put(
            class_name@,
            name@,
            method.deep_view(),
            old(defs).deep_view(),
        ),
{
    add_method(defs, class_name, name, method);
}

/// Definitions in which a class has a method under a name: its own, or else the given one.
pub open spec fn method_kept(
    class_name: Text,
    name: Text,
    method: DataTypeMethodModel,
    defs: DefinitionsModel,
) -> DefinitionsModel {
    method_ensured(defs, class_name, name, method)
}

/// Gives a class a method unless it has one under the name.
pub fn keep_method(class_name: &str, name: &str, method: DataTypeMethod, defs: &mut Definitions)
    ensures
        final(defs).deep_view() == method_kept(
            class_name@,
            name@,
            method.deep_view(),
            old(defs).deep_view(),
        ),
{
    ensure_method(defs, class_name, name, method);
}

/// A method that returns a constant, or the default value of its type.
pub open spec fn constant_method(
    ty: TypeModel,
    value: Option<ConstantModel>,
) -> DataTypeMethodModel {
    DataTypeMethodModel::SimpleConstantReturn(ty, value)
}

/// A method that returns the default value of its type.
pub fn default_method(ty: &Type) -> (r: DataTypeMethod)
    ensures
        r.deep_view() == constant_method(ty.deep_view(), None),
{
    DataTypeMethod::SimpleConstantReturn(ty.dup(), None)
}

/// A method that returns a constant.
pub fn value_method(ty: &Type, value: Constant) -> (r: DataTypeMethod)
    ensures
        r.deep_view() == constant_method(ty.deep_view(), Some(value.deep_view())),
{
    DataTypeMethod::SimpleConstantReturn(ty.dup(), Some(value))
}

/// The method that tests two values of a class for equality.
pub open spec fn class_equality(fields: Seq<(Text, TypeModel)>) -> DataTypeMethodModel {
    DataTypeMethodModel::AdtHelperMethod { kind: AdtHelperKindModel::PartialEqClass { fields } }
}

/// The method that tests two values of a class for equality.
pub fn make_class_equality(fields: &Vec<(String, Type)>) -> (r: DataTypeMethod)
    ensures
        r.deep_view() == class_equality(fields.deep_view()),
{
    DataTypeMethod::AdtHelperMethod { kind: AdtHelperKind::PartialEqClass { fields: fields.dup() } }
}

/// A function as a method.
pub fn function_method(function: Function) -> (r: DataTypeMethod)
    ensures
        r.deep_view() == DataTypeMethodModel::Function(function.deep_view()),
{
    DataTypeMethod::Function(function)
}

/// Definitions in which a class tests values for equality: as before, or field by field.
pub open spec fn equality_ensured(name: Text, defs: DefinitionsModel) -> DefinitionsModel {
    method_ensured(defs, name, "eq"@, class_equality(fields_of(defs, name)))
}

/// Lets a class test values for equality field by field unless it has a way.
pub fn ensure_equality(name: &str, defs: &mut Definitions)
    ensures
        final(defs).deep_view() == equality_ensured(name@, old(defs).deep_view()),
{
    let method = match defs.get(name) {
        Some(DataType::Class { fields, .. }) => make_class_equality(fields),
        _ => {
            return ;
        },
    };
    ensure_method(defs, name, "eq", method);
}

/// A list of interfaces with one more, unless it is there.
pub open spec fn interface_added(interfaces: Seq<Text>, interface: Text) -> Seq<Text> {
    if interfaces.contains(interface) {
        interfaces
    } else {
        interfaces.push(interface)
    }
}

/// Definitions in which a class implements an interface.
pub open spec fn interface_marked(
    name: Text,
    interface: Text,
    defs: DefinitionsModel,
) -> DefinitionsModel {
    if is_class(defs, name) {
        match defs[name] {
            DataTypeModel::Class { fields, is_abstract, methods, super_class, interfaces } =>
                defs.insert(
                    name,
                    DataTypeModel::Class {
                        fields,
                        is_abstract,
                        methods,
                        super_class,
                        interfaces: interface_added(interfaces, interface),
                    },
                ),
            _ => defs,
        }
    } else {
        defs
    }
}

/// Whether a text is in a list.
pub fn holds_text(texts: &Vec<String>, text: &str) -> (r: bool)
    ensures
        r == texts.deep_view().contains(text@),
{
    let ghost model = texts.deep_view();
    for i in 0..texts.len()
        invariant
            model == texts.deep_view(),
            forall|k: int| 0 <= k < i ==> model[k] != text@,
    {
        assert(model[i as int] == texts@[i as int]@);
        if same(texts[i].as_str(), text) {
            return true;
        }
    }
    false
}

/// Lets a class implement an interface.
pub fn mark_interface(name: &str, interface: &str, defs: &mut Definitions)
    ensures
        final(defs).deep_view() == interface_marked(name@, interface@, old(defs).deep_view()),
{
    if !is_class_name(defs, name) {
        return ;
    }
    let ghost before = defs.deep_view();
    let taken = defs.replace(name, placeholder());
    match taken {
        DataType::Class { fields, is_abstract, methods, super_class, mut interfaces } => {
            let ghost had = interfaces.deep_view();
            if !holds_text(&interfaces, interface) {
                interfaces.push(interface.to_string());
                assert(interfaces.deep_view() =~= had.push(interface@));
            }
            let changed = DataType::Class { fields, is_abstract, methods, super_class, interfaces };
            let ghost model = changed.deep_view();
            defs.insert(name.to_string(), changed);
            assert(defs.deep_view() =~= before.insert(name@, model));
        },
        other => {
            assert(false);
        },
    }
}

/// Definitions in which the class of a variant is complete; methods that were added meanwhile stay.
pub open spec fn variant_completed(
    name: Text,
    base: Text,
    fields: Seq<(Text, TypeModel)>,
    methods: Map<Text, DataTypeMethodModel>,
    defs: DefinitionsModel,
) -> DefinitionsModel {
    if is_class(defs, name) {
        match defs[name] {
            DataTypeModel::Class { methods: had, interfaces, .. } => defs.insert(
                name,
                DataTypeModel::Class {
                    fields,
                    is_abstract: false,
                    methods: had.union_prefer_right(methods),
                    super_class: Some(base),
                    interfaces,
                },
            ),
            _ => defs,
        }
    } else {
        defs
    }
}

/// Completes the class of a variant.
pub fn complete_variant(
    name: &str,
    base: &str,
    new_fields: Vec<(String, Type)>,
    more: NameMap<DataTypeMethod>,
    defs: &mut Definitions,
)
    ensures
        final(defs).deep_view() == variant_completed(
            name@,
            base@,
            new_fields.deep_view(),
            more.deep_view(),
            old(defs).deep_view(),
        ),
{
    if !is_class_name(defs, name) {
        return ;
    }
    let ghost before = defs.deep_view();
    let taken = defs.replace(name, placeholder());
    match taken {
        DataType::Class { fields, is_abstract, mut methods, super_class, interfaces } => {
            extend_methods(&mut methods, more);
            let changed = DataType::Class {
                fields: new_fields,
                is_abstract: false,
                methods,
                super_class: Some(base.to_string()),
                interfaces,
            };
            let ghost model = changed.deep_view();
            defs.insert(name.to_string(), changed);
            assert(defs.deep_view() =~= before.insert(name@, model));
        },
        other => {
            assert(false);
        },
    }
}

/// Definitions in which a name is defined: as before, or as an interface without methods.
pub open spec fn interface_ensured(name: Text, defs: DefinitionsModel) -> DefinitionsModel {
    if defs.dom().contains(name) {
        defs
    } else {
        defs.insert(name, DataTypeModel::Interface { methods: Map::empty() })
    }
}

/// Defines an interface without methods unless the name is defined.
pub fn ensure_interface(name: &str, defs: &mut Definitions)
    ensures
        final(defs).deep_view() == interface_ensured(name@, old(defs).deep_view()),
{
    if !is_defined(defs, name) {
        let interface = DataType::Interface { methods: NameMap::new() };
        assert(interface.deep_view()->Interface_methods =~= Map::<Text, SignatureModel>::empty());
        define_name(defs, name, interface);
    }
}

/// The methods of an interface.
pub open spec fn interface_methods(
    defs: DefinitionsModel,
    name: Text,
) -> Map<Text, SignatureModel> {
    match defs[name] {
        DataTypeModel::Interface { methods } => methods,
        _ => Map::empty(),
    }
}

/// Definitions in which an interface has the method through which function values are called; a
/// class of the name stays as it is.
pub open spec fn call_ensured(
    name: Text,
    method: SignatureModel,
    defs: DefinitionsModel,
) -> DefinitionsModel {
    if !defs.dom().contains(name) {
        defs.insert(
            name,
            DataTypeModel::Interface { methods: Map::empty().insert("call"@, method) },
        )
    } else if is_interface(defs, name) && !interface_methods(defs, name).dom().contains("call"@) {
        defs.insert(
            name,
            DataTypeModel::Interface {
                methods: interface_methods(defs, name).insert("call"@, method),
            },
        )
    } else {
        defs
    }
}

/// Lets an interface have the method through which function values are called.
pub fn ensure_call(name: &str, method: &Signature, defs: &mut Definitions)
    ensures
        final(defs).deep_view() == call_ensured(
            name@,
            method.deep_view(),
            old(defs).deep_view(),
        ),
{
    let ghost before = defs.deep_view();
    let needed: bool = match defs.get(name) {
        Some(DataType::Interface { methods }) => !methods.contains_key("call"),
        Some(_) => false,
        None => true,
    };
    if !needed {
        return ;
    }
    let mut known: NameMap<Signature> = NameMap::new();
    if is_defined(defs, name) {
        match defs.replace(name, placeholder()) {
            DataType::Interface { methods } => {
                known = methods;
            },
            other => {
                assert(false);
            },
        }
    } else {
        assert(known.deep_view() =~= Map::<Text, SignatureModel>::empty());
    }
    let ghost had = known.deep_view();
    known.insert("call".to_string(), method.dup());
    assert(known.deep_view() =~= had.insert("call"@, method.deep_view()));
    let changed = DataType::Interface { methods: known };
    let ghost model = changed.deep_view();
    define_name(defs, name, changed);
    assert(defs.deep_view() =~= before.insert(name@, model));
}

/// To make sure of something twice is to make sure of it once: what is defined stays, and so do the
/// methods that a class has.
pub proof fn ensuring_twice_is_ensuring_once(
    name: Text,
    is_abstract: bool,
    super_class: Option<Text>,
    method_name: Text,
    method: DataTypeMethodModel,
    call: SignatureModel,
    interface: Text,
    defs: DefinitionsModel,
)
    ensures
        class_ensured(
            name,
            is_abstract,
            super_class,
            class_ensured(name, is_abstract, super_class, defs),
        ) == class_ensured(name, is_abstract, super_class, defs),
        interface_ensured(name, interface_ensured(name, defs)) == interface_ensured(name, defs),
        call_ensured(name, call, call_ensured(name, call, defs)) == call_ensured(name, call, defs),
        method_kept(name, method_name, method, method_kept(name, method_name, method, defs))
            == method_kept(name, method_name, method, defs),
        equality_ensured(name, equality_ensured(name, defs)) == equality_ensured(name, defs),
        interface_marked(name, interface, interface_marked(name, interface, defs))
            == interface_marked(name, interface, defs),
{
    let marked = interface_marked(name, interface, defs);
    if is_class(defs, name) {
        let had = match defs[name] {
            DataTypeModel::Class { interfaces, .. } => interfaces,
            _ => Seq::empty(),
        };
        let has = interface_added(had, interface);
        assert(has.contains(interface)) by {
            if !had.contains(interface) {
                assert(has[had.len() as int] == interface);
            }
        }
        assert(interface_marked(name, interface, marked) =~= marked);
    }
    let called = call_ensured(name, call, defs);
    assert(call_ensured(name, call, called) =~= called);
}

/// Making sure of something defines no name but the given one, and takes none away.
pub proof fn ensuring_keeps_the_other_names(
    name: Text,
    is_abstract: bool,
    super_class: Option<Text>,
    call: SignatureModel,
    defs: DefinitionsModel,
)
    ensures
        class_ensured(name, is_abstract, super_class, defs).dom() == defs.dom().insert(name),
        interface_ensured(name, defs).dom() == defs.dom().insert(name),
        call_ensured(name, call, defs).dom() == defs.dom().insert(name),
        forall|other: Text|
            other != name && #[trigger] defs.dom().contains(other) ==> class_ensured(
                name,
                is_abstract,
                super_class,
                defs,
            )[other] == defs[other] && interface_ensured(name, defs)[other] == defs[other]
                && call_ensured(name, call, defs)[other] == defs[other],
{
    assert(class_ensured(name, is_abstract, super_class, defs).dom() =~= defs.dom().insert(name));
    assert(interface_ensured(name, defs).dom() =~= defs.dom().insert(name));
    assert(call_ensured(name, call, defs).dom() =~= defs.dom().insert(name));
}

/// Completing the class of a variant keeps the methods that it got before, as far as the variant
/// has
/// none of the same name.
pub proof fn completing_keeps_methods(
    name: Text,
    base: Text,
    fields: Seq<(Text, TypeModel)>,
    methods: Map<Text, DataTypeMethodModel>,
    defs: DefinitionsModel,
    method_name: Text,
)
    requires
        class_has_method(defs, name, method_name),
        !methods.contains_key(method_name),
    ensures
        class_has_method(variant_completed(name, base, fields, methods, defs), name, method_name),
        methods_of(variant_completed(name, base, fields, methods, defs), name)[method_name]
            == methods_of(defs, name)[method_name],
{
}

} // verus!
