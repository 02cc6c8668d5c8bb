//! The class files of data types.
use crate::bridges::{
    can_be_relative, constant_method_file, create_constant_method, create_relative_pointer_bridge,
    create_static_instance_bridge, instance_bridge, list_parameters, receiver_params,
    relative_bridge, relative_signature,
};
use crate::class_methods::{
    MEMORY_VIEW_ORIGIN_CARRIER, MEMORY_VIEW_ORIGIN_FIELD, RELATIVE_POINTER_METHOD_SUFFIX,
    RUST_COPY_INTERFACE, byte_offset_field, copy_method, create_default_constructor,
    create_field_constructor, create_managed_copy_method, create_memory_view_origin_methods,
    create_relative_pointer_field_constructor, default_constructor, element_offset_field,
    field_constructor, field_parameters, origin_methods, relative_constructor,
    relative_fields_are_larger, relative_fields_fit, relative_pointer_byte_offset_field,
    relative_pointer_element_offset_field, relative_slots, slots_before,
};
use crate::classes::{holds_text, interface_added};
use crate::code::{Definitions, DefinitionsModel, object_class, object_type};
use crate::codec::{is_pointer, is_pointer_type};
use crate::comparisons::{
    class_equality_method, create_class_equality, create_enum_equality, create_variant_test,
    enum_equality_method, variant_test_method,
};
use crate::descriptor::{explicit_parameters, field_type, method_descriptor};
use crate::jvm_ops::{
    ClassFile, ClassFileModel, InnerClass, InnerClassModel, JAVA_8, JvmField, JvmFieldModel,
    JvmMethod, JvmMethodModel, MemberRef, MemberRefModel, MethodBody, MethodBodyModel,
    MethodParameter, MethodParameterModel, PRIVATE_VOLATILE_SYNTHETIC, PUBLIC, PUBLIC_FINAL_SUPER,
    PUBLIC_STATIC, PUBLIC_SUPER_ABSTRACT, PUBLIC_SYNTHETIC, append_method, empty_jvm_methods,
    jvm_field, make_jvm_field, member, no_jvm_methods,
};
use crate::name_map::NameMap;
use crate::oomir::{
    Duplicate, AdtHelperKind, AdtHelperKindModel, DataTypeMethod, DataTypeMethodModel, Signature,
    SignatureModel, Text, Type, TypeModel, has_value,
};
use crate::text::{
    cat2, chars_of, ends_with, ends_with_text, less, same, string_of, text_less,
    text_less_irreflexive, text_less_transitive,
};
use vstd::prelude::*;
use vstd::string::*;

verus! {

/// The first fields that have a JVM value.
pub open spec fn valued_only(fields: Seq<(Text, TypeModel)>, n: nat) -> Seq<(Text, TypeModel)>
    decreases n,
{
    if n == 0 || n > fields.len() {
        Seq::empty()
    } else {
        let before = valued_only(fields, (n - 1) as nat);
        if has_value(fields[n - 1].1) {
            before.push(fields[n - 1])
        } else {
            before
        }
    }
}

fn keep_valued(fields: &Vec<(String, Type)>) -> (r: Vec<(String, Type)>)
    ensures
        r.deep_view() == valued_only(fields.deep_view(), fields@.len()),
{
    let ghost model = fields.deep_view();
    let mut r: Vec<(String, Type)> = Vec::new();
    assert(r.deep_view() =~= valued_only(model, 0));
    for i in 0..fields.len()
        invariant
            model == fields.deep_view(),
            r.deep_view() == valued_only(model, i as nat),
    {
        assert(model[i as int] == fields@[i as int].deep_view());
        if fields[i].1.has_jvm_value() {
            let ghost before = r.deep_view();
            r.push(fields[i].dup());
            assert(r.deep_view() =~= before.push(model[i as int]));
        }
    }
    r
}

/// The first interfaces, each once.
pub open spec fn distinct(interfaces: Seq<Text>, n: nat) -> Seq<Text>
    decreases n,
{
    if n == 0 || n > interfaces.len() {
        Seq::empty()
    } else {
        interface_added(distinct(interfaces, (n - 1) as nat), interfaces[n - 1])
    }
}

/// The interfaces of a class: those that it is given, each once, and those of all objects that can
/// be
/// made.
pub open spec fn class_interfaces(interfaces: Seq<Text>, is_abstract: bool) -> Seq<Text> {
    let given = distinct(interfaces, interfaces.len());
    if is_abstract {
        given
    } else {
        interface_added(
            interface_added(given, RUST_COPY_INTERFACE@),
            MEMORY_VIEW_ORIGIN_CARRIER@,
        )
    }
}

fn add_interface(interfaces: &mut Vec<String>, interface: &str)
    ensures
        final(interfaces).deep_view() == interface_added(
            old(interfaces).deep_view(),
            interface@,
        ),
{
    let ghost before = interfaces.deep_view();
    if !holds_text(interfaces, interface) {
        interfaces.push(interface.to_string());
        assert(interfaces.deep_view() =~= before.push(interface@));
    }
}

fn list_interfaces(interfaces: &Vec<String>, is_abstract: bool) -> (r: Vec<String>)
    ensures
        r.deep_view() == class_interfaces(interfaces.deep_view(), is_abstract),
{
    let ghost model = interfaces.deep_view();
    let mut r: Vec<String> = Vec::new();
    assert(r.deep_view() =~= distinct(model, 0));
    for i in 0..interfaces.len()
        invariant
            model == interfaces.deep_view(),
            r.deep_view() == distinct(model, i as nat),
    {
        assert(model[i as int] == interfaces@[i as int]@);
        add_interface(&mut r, interfaces[i].as_str());
    }
    if !is_abstract {
        add_interface(&mut r, RUST_COPY_INTERFACE);
        add_interface(&mut r, MEMORY_VIEW_ORIGIN_CARRIER);
    }
    r
}

/// The fields of a class file for the first fields; pointers have two offsets beside them.
pub open spec fn listed_fields(fields: Seq<(Text, TypeModel)>, n: nat) -> Seq<JvmFieldModel>
    decreases n,
{
    if n == 0 || n > fields.len() {
        Seq::empty()
    } else {
        let name = fields[n - 1].0;
        let own = listed_fields(fields, (n - 1) as nat).push(
            jvm_field(PUBLIC, name, fields[n - 1].1),
        );
        if is_pointer(fields[n - 1].1) {
            own.push(jvm_field(PUBLIC_SYNTHETIC, element_offset_field(name), Type::I64)).push(
                jvm_field(PUBLIC_SYNTHETIC, byte_offset_field(name), Type::I64),
            )
        } else {
            own
        }
    }
}

/// The fields of a class file: those of the class, and that for the memory which an object is a
/// view
/// of.
pub open spec fn class_fields(
    fields: Seq<(Text, TypeModel)>,
    is_abstract: bool,
) -> Seq<JvmFieldModel> {
    let own = listed_fields(fields, fields.len());
    if is_abstract {
        own
    } else {
        own.push(
            jvm_field(PRIVATE_VOLATILE_SYNTHETIC, MEMORY_VIEW_ORIGIN_FIELD@, object_class()),
        )
    }
}

/// Whether all fields have a type that fields can have.
pub open spec fn all_storable(fields: Seq<(Text, TypeModel)>) -> bool {
    forall|i: int| 0 <= i < fields.len() ==> field_type((#[trigger] fields[i]).1) is Some
}

fn append_jvm_field(field: JvmField, jvm_fields: &mut Vec<JvmField>)
    ensures
        final(jvm_fields).deep_view() == old(jvm_fields).deep_view().push(field.deep_view()),
{
    let ghost before = jvm_fields.deep_view();
    let ghost model = field.deep_view();
    jvm_fields.push(field);
    assert(jvm_fields.deep_view() =~= before.push(model));
}

fn list_class_fields(fields: &Vec<(String, Type)>, is_abstract: bool) -> (r: Vec<JvmField>)
    requires
        all_storable(fields.deep_view()),
    ensures
        r.deep_view() == class_fields(fields.deep_view(), is_abstract),
{
    let ghost model = fields.deep_view();
    let mut r: Vec<JvmField> = Vec::new();
    assert(r.deep_view() =~= listed_fields(model, 0));
    for i in 0..fields.len()
        invariant
            model == fields.deep_view(),
            all_storable(model),
            r.deep_view() == listed_fields(model, i as nat),
    {
        assert(model[i as int] == fields@[i as int].deep_view());
        let name = fields[i].0.as_str();
        append_jvm_field(make_jvm_field(PUBLIC, name, &fields[i].1), &mut r);
        if is_pointer_type(&fields[i].1) {
            append_jvm_field(
                make_jvm_field(
                    PUBLIC_SYNTHETIC,
                    relative_pointer_element_offset_field(name).as_str(),
                    &Type::I64,
                ),
                &mut r,
            );
            append_jvm_field(
                make_jvm_field(
                    PUBLIC_SYNTHETIC,
                    relative_pointer_byte_offset_field(name).as_str(),
                    &Type::I64,
                ),
                &mut r,
            );
        }
    }
    if !is_abstract {
        append_jvm_field(
            make_jvm_field(
                PRIVATE_VOLATILE_SYNTHETIC,
                MEMORY_VIEW_ORIGIN_FIELD,
                &object_type(),
            ),
            &mut r,
        );
    }
    r
}

/// Whether a method is among those that have offsets beside their pointers.
pub open spec fn is_relative(
    methods: Seq<MemberRefModel>,
    class_name: Text,
    name: Text,
    signature: SignatureModel,
) -> bool {
    methods.contains(member(class_name, name, method_descriptor(signature)))
}

fn is_listed_relative(
    methods: &Vec<MemberRef>,
    class_name: &str,
    name: &str,
    signature: &Signature,
) -> (r: bool)
    ensures
        r == is_relative(methods.deep_view(), class_name@, name@, signature.deep_view()),
{
    let ghost model = methods.deep_view();
    let descriptor = signature.to_descriptor();
    let ghost wanted = member(class_name@, name@, descriptor@);
    for i in 0..methods.len()
        invariant
            model == methods.deep_view(),
            wanted == member(class_name@, name@, descriptor@),
            descriptor@ == method_descriptor(signature.deep_view()),
            forall|k: int| 0 <= k < i ==> model[k] != wanted,
    {
        assert(model[i as int] == methods@[i as int].deep_view());
        if same(methods[i].owner.as_str(), class_name) && same(methods[i].name.as_str(), name)
            && same(methods[i].descriptor.as_str(), descriptor.as_str()) {
            assert(model[i as int] == wanted);
            return true;
        }
    }
    false
}

/// How a function of a data type becomes a method.
pub struct FunctionForm {
    /// Whether the method is listed as one with offsets beside its pointers.
    pub is_listed: bool,
    /// Whether the name of the method says that it has offsets beside its pointers.
    pub is_adapter: bool,
}

/// How a function of a data type becomes a method.
pub open spec fn function_form(
    class_name: Text,
    name: Text,
    signature: SignatureModel,
    relative: Seq<MemberRefModel>,
) -> FunctionForm {
    FunctionForm {
        is_listed: signature.is_static && is_relative(relative, class_name, name, signature),
        is_adapter: ends_with_text(name, RELATIVE_POINTER_METHOD_SUFFIX@) && can_be_relative(
            signature,
        ),
    }
}

/// The signature of the method that a function becomes.
pub open spec fn emitted_signature(
    form: FunctionForm,
    signature: SignatureModel,
) -> SignatureModel {
    if form.is_listed || form.is_adapter {
        relative_signature(signature)
    } else {
        signature
    }
}

/// The names of the parameters of a function, where its method keeps them.
pub open spec fn kept_parameters(name: Text, signature: SignatureModel) -> Option<
    Seq<MethodParameterModel>,
> {
    if name == "<init>"@ || name == "getVariantIdx"@ {
        None
    } else {
        let params = explicit_parameters(signature);
        Some(field_parameters(params, params.len()))
    }
}

/// The method that a function of a data type becomes.
pub open spec fn lowered_method(
    name: Text,
    signature: SignatureModel,
    form: FunctionForm,
) -> JvmMethodModel {
    let emitted = emitted_signature(form, signature);
    JvmMethodModel {
        access: if signature.is_static {
            PUBLIC_STATIC
        } else {
            PUBLIC
        },
        name: if form.is_listed {
            name + RELATIVE_POINTER_METHOD_SUFFIX@
        } else {
            name
        },
        descriptor: method_descriptor(emitted),
        body: MethodBodyModel::Lowered {
            function: name,
            is_relative: form.is_listed || form.is_adapter,
        },
        parameters: kept_parameters(name, emitted),
    }
}

fn list_explicit_parameters(signature: &Signature) -> (r: Vec<MethodParameter>)
    ensures
        ({
            let params = explicit_parameters(signature.deep_view());
            r.deep_view() == field_parameters(params, params.len())
        }),
{
    if signature.is_static || signature.params.len() == 0 {
        assert(signature.deep_view().params.len() == signature.params@.len());
        return list_parameters(&signature.params);
    }
    let mut rest: Vec<(String, Type)> = Vec::new();
    let ghost whole = signature.deep_view().params.skip(1);
    assert(signature.deep_view().params.len() == signature.params@.len());
    for i in 1..signature.params.len()
        invariant
            whole == signature.deep_view().params.skip(1),
            signature.deep_view().params.len() == signature.params@.len(),
            rest@.len() == i - 1,
            forall|k: int| #![trigger rest@[k]] 0 <= k < i - 1 ==> rest@[k].deep_view() == whole[k],
    {
        rest.push(signature.params[i].dup());
        assert(whole[i - 1] == signature.params@[i as int].deep_view());
    }
    assert(rest.deep_view() =~= whole);
    list_parameters(&rest)
}

fn create_lowered_method(
    name: &str,
    signature: &Signature,
    is_listed: bool,
    is_adapter: bool,
) -> (r: JvmMethod)
    ensures
        r.deep_view() == lowered_method(
            name@,
            signature.deep_view(),
            (FunctionForm { is_listed, is_adapter }),
        ),
{
    let relative: bool = is_listed || is_adapter;
    let emitted = if relative {
        signature.relative_pointer_abi_signature()
    } else {
        signature.dup()
    };
    let parameters = if same(name, "<init>") || same(name, "getVariantIdx") {
        None
    } else {
        Some(list_explicit_parameters(&emitted))
    };
    JvmMethod {
        access: if signature.is_static {
            PUBLIC_STATIC
        } else {
            PUBLIC
        },
        name: if is_listed {
            cat2(name, RELATIVE_POINTER_METHOD_SUFFIX)
        } else {
            name.to_string()
        },
        descriptor: emitted.to_descriptor(),
        body: MethodBody::Lowered { function: name.to_string(), is_relative: relative },
        parameters,
    }
}

/// Whether the methods that a function of a data type becomes fit the local variables of the JVM.
pub open spec fn function_fits(class_name: Text, signature: SignatureModel) -> bool {
    &&& relative_slots(signature.params, signature.params.len()) <= u16::MAX
    &&& signature.params.len() > 0 ==> slots_before(
        receiver_params(class_name, signature.params),
        signature.params.len(),
    ) <= u16::MAX
}

/// Whether a method of a data type fits the local variables of the JVM.
pub open spec fn method_fits(class_name: Text, method: DataTypeMethodModel) -> bool {
    match method {
        DataTypeMethodModel::Function(function) => function_fits(class_name, function.signature),
        _ => true,
    }
}

/// The methods of a class file with those that a function of a data type becomes: its own, one
/// without offsets beside its pointers, and one that takes the receiver as a parameter.
pub open spec fn function_methods(
    class_name: Text,
    name: Text,
    signature: SignatureModel,
    relative: Seq<MemberRefModel>,
    jvm_methods: Seq<JvmMethodModel>,
) -> Seq<JvmMethodModel> {
    let form = function_form(class_name, name, signature, relative);
    let own = jvm_methods.push(lowered_method(name, signature, form));
    let bridged = if form.is_listed {
        own.push(relative_bridge(class_name, name, signature, PUBLIC_STATIC))
    } else {
        own
    };
    if !signature.is_static && signature.params.len() > 0 && !form.is_adapter {
        bridged.push(instance_bridge(class_name, name, signature))
    } else {
        bridged
    }
}

fn append_function_methods(
    class_name: &str,
    name: &str,
    signature: &Signature,
    relative: &Vec<MemberRef>,
    jvm_methods: &mut Vec<JvmMethod>,
)
    requires
        function_fits(class_name@, signature.deep_view()),
    ensures
        final(jvm_methods).deep_view() == function_methods(
            class_name@,
            name@,
            signature.deep_view(),
            relative.deep_view(),
            old(jvm_methods).deep_view(),
        ),
{
    assert(signature.deep_view().params.len() == signature.params@.len());
    let is_listed: bool = signature.is_static && is_listed_relative(
        relative,
        class_name,
        name,
        signature,
    );
    let is_adapter: bool = ends_with(name, RELATIVE_POINTER_METHOD_SUFFIX)
        && signature.supports_relative_pointer_abi();
    append_method(create_lowered_method(name, signature, is_listed, is_adapter), jvm_methods);
    if is_listed {
        append_method(
            create_relative_pointer_bridge(class_name, name, signature, PUBLIC_STATIC),
            jvm_methods,
        );
    }
    if !signature.is_static && signature.params.len() > 0 && !is_adapter {
        append_method(create_static_instance_bridge(class_name, name, signature), jvm_methods);
    }
}

/// The methods of a class file with those that a method of a data type becomes.
pub open spec fn data_method(
    class_name: Text,
    name: Text,
    method: DataTypeMethodModel,
    defs: DefinitionsModel,
    relative: Seq<MemberRefModel>,
    jvm_methods: Seq<JvmMethodModel>,
) -> Seq<JvmMethodModel> {
    match method {
        DataTypeMethodModel::SimpleConstantReturn(ty, value) => jvm_methods.push(
            constant_method_file(name, ty, value),
        ),
        DataTypeMethodModel::Function(function) => function_methods(
            class_name,
            name,
            function.signature,
            relative,
            jvm_methods,
        ),
        DataTypeMethodModel::AdtHelperMethod { kind } => jvm_methods.push(
            match kind {
                AdtHelperKindModel::IsVariant { variant_idx } => variant_test_method(
                    name,
                    class_name,
                    variant_idx,
                ),
                AdtHelperKindModel::PartialEqEnum { variants } => enum_equality_method(
                    name,
                    class_name,
                    variants,
                    defs,
                ),
                AdtHelperKindModel::PartialEqClass { fields } => class_equality_method(
                    name,
                    class_name,
                    fields,
                    defs,
                ),
            },
        ),
    }
}

fn append_data_method(
    class_name: &str,
    name: &str,
    method: &DataTypeMethod,
    defs: &Definitions,
    relative: &Vec<MemberRef>,
    jvm_methods: &mut Vec<JvmMethod>,
)
    requires
        method_fits(class_name@, method.deep_view()),
    ensures
        final(jvm_methods).deep_view() == data_method(
            class_name@,
            name@,
            method.deep_view(),
            defs.deep_view(),
            relative.deep_view(),
            old(jvm_methods).deep_view(),
        ),
{
    match method {
        DataTypeMethod::SimpleConstantReturn(ty, value) => append_method(
            create_constant_method(name, ty, value),
            jvm_methods,
        ),
        DataTypeMethod::Function(function) => append_function_methods(
            class_name,
            name,
            &function.signature,
            relative,
            jvm_methods,
        ),
        DataTypeMethod::AdtHelperMethod { kind } => match kind {
            AdtHelperKind::IsVariant { variant_idx } => append_method(
                create_variant_test(name, class_name, *variant_idx),
                jvm_methods,
            ),
            AdtHelperKind::PartialEqEnum { variants } => append_method(
                create_enum_equality(name, class_name, variants, defs),
                jvm_methods,
            ),
            AdtHelperKind::PartialEqClass { fields } => append_method(
                create_class_equality(name, class_name, fields, defs),
                jvm_methods,
            ),
        },
    }
}

/// The methods of a class file with those that the first methods of a data type become.
pub open spec fn data_methods(
    class_name: Text,
    names: Seq<Text>,
    methods: Map<Text, DataTypeMethodModel>,
    defs: DefinitionsModel,
    relative: Seq<MemberRefModel>,
    n: nat,
    jvm_methods: Seq<JvmMethodModel>,
) -> Seq<JvmMethodModel>
    decreases n,
{
    if n == 0 || n > names.len() {
        jvm_methods
    } else {
        data_method(
            class_name,
            names[n - 1],
            methods[names[n - 1]],
            defs,
            relative,
            data_methods(
                class_name,
                names,
                methods,
                defs,
                relative,
                (n - 1) as nat,
                jvm_methods,
            ),
        )
    }
}

/// Whether a field is a pointer.
pub open spec fn has_pointer(fields: Seq<(Text, TypeModel)>) -> bool {
    exists|i: int| 0 <= i < fields.len() && is_pointer((#[trigger] fields[i]).1)
}

fn holds_pointer(fields: &Vec<(String, Type)>) -> (r: bool)
    ensures
        r == has_pointer(fields.deep_view()),
{
    let ghost model = fields.deep_view();
    for i in 0..fields.len()
        invariant
            model == fields.deep_view(),
            forall|k: int| 0 <= k < i ==> !is_pointer((#[trigger] model[k]).1),
    {
        assert(model[i as int] == fields@[i as int].deep_view());
        if is_pointer_type(&fields[i].1) {
            return true;
        }
    }
    false
}

/// The constructor of a class: it sets all fields, if there are any.
pub open spec fn constructor(
    class_name: Text,
    super_class: Text,
    fields: Seq<(Text, TypeModel)>,
) -> JvmMethodModel {
    if fields.len() == 0 {
        default_constructor(super_class)
    } else {
        field_constructor(class_name, super_class, fields)
    }
}

/// The methods that every class has: constructors, and what objects need that can be made.
pub open spec fn standard_methods(
    class_name: Text,
    super_class: Text,
    fields: Seq<(Text, TypeModel)>,
    is_abstract: bool,
) -> Seq<JvmMethodModel> {
    let first = no_jvm_methods().push(constructor(class_name, super_class, fields));
    let viewed = if is_abstract {
        first
    } else {
        origin_methods(class_name, first)
    };
    let settled = if has_pointer(fields) {
        viewed.push(relative_constructor(class_name, super_class, fields))
    } else {
        viewed
    };
    if is_abstract {
        settled
    } else {
        settled.push(copy_method(class_name, fields))
    }
}

fn create_standard_methods(
    class_name: &str,
    super_class: &str,
    fields: &Vec<(String, Type)>,
    is_abstract: bool,
) -> (r: Vec<JvmMethod>)
    requires
        relative_fields_fit(fields.deep_view()),
    ensures
        r.deep_view() == standard_methods(
            class_name@,
            super_class@,
            fields.deep_view(),
            is_abstract,
        ),
{
    let mut r = empty_jvm_methods();
    assert(fields.deep_view().len() == fields@.len());
    proof {
        relative_fields_are_larger(fields.deep_view(), fields@.len());
    }
    if fields.len() == 0 {
        append_method(create_default_constructor(super_class), &mut r);
    } else {
        append_method(create_field_constructor(class_name, super_class, fields), &mut r);
    }
    if !is_abstract {
        create_memory_view_origin_methods(class_name, &mut r);
    }
    if holds_pointer(fields) {
        append_method(
            create_relative_pointer_field_constructor(class_name, super_class, fields),
            &mut r,
        );
    }
    if !is_abstract {
        append_method(create_managed_copy_method(class_name, fields), &mut r);
    }
    r
}

/// The part of a name behind its last dollar sign.
pub open spec fn simple_name(name: Text) -> Text
    decreases name.len(),
{
    if name.len() == 0 || name.last() == '$' {
        Seq::empty()
    } else {
        simple_name(name.drop_last()).push(name.last())
    }
}

fn find_simple_name(name: &str) -> (r: String)
    ensures
        r@ == simple_name(name@),
{
    let chars = chars_of(name);
    let mut r: Vec<char> = Vec::new();
    assert(name@.take(0) =~= Seq::<char>::empty());
    for i in 0..chars.len()
        invariant
            chars@ == name@,
            r@ == simple_name(name@.take(i as int)),
    {
        assert(name@.take(i + 1).drop_last() =~= name@.take(i as int));
        let c: char = chars[i];
        if c == '$' {
            r = Vec::new();
            assert(r@ =~= simple_name(name@.take(i + 1)));
        } else {
            r.push(c);
        }
    }
    assert(name@.take(chars@.len() as int) =~= name@);
    string_of(&r)
}

/// Whether a text is made of decimal digits only.
pub open spec fn is_number_text(text: Text) -> bool {
    forall|i: int| 0 <= i < text.len() ==> '0' <= #[trigger] text[i] <= '9'
}

fn is_only_digits(text: &str) -> (r: bool)
    ensures
        r == is_number_text(text@),
{
    let chars = chars_of(text);
    for i in 0..chars.len()
        invariant
            chars@ == text@,
            forall|k: int| 0 <= k < i ==> '0' <= #[trigger] text@[k] <= '9',
    {
        let c: char = chars[i];
        if c < '0' || c > '9' {
            assert(!('0' <= text@[i as int] <= '9'));
            return false;
        }
    }
    true
}

/// The name of a member class inside its outer class; numbered classes and classes that are not
/// members have none.
pub open spec fn member_class_name(class_name: Text) -> Option<Text> {
    let name = simple_name(class_name);
    if is_number_text(name) || name == class_name {
        None
    } else {
        Some(name)
    }
}

fn name_member_class(class_name: &str) -> (r: Option<String>)
    ensures
        r.deep_view() == member_class_name(class_name@),
{
    let name = find_simple_name(class_name);
    if is_only_digits(name.as_str()) || same(name.as_str(), class_name) {
        None
    } else {
        Some(name)
    }
}

/// The member classes that a class file lists: the subclasses, and the class itself in its host.
pub open spec fn member_classes(
    class_name: Text,
    subclasses: Seq<Text>,
    nest_host: Option<Text>,
) -> Seq<InnerClassModel> {
    let own = Seq::new(
        subclasses.len(),
        |i: int|
            InnerClassModel {
                class_name: subclasses[i],
                outer_class: class_name,
                name: member_class_name(subclasses[i]),
                access: PUBLIC_STATIC,
            },
    );
    match nest_host {
        Some(host) => own.push(
            InnerClassModel {
                class_name,
                outer_class: host,
                name: Some(simple_name(class_name)),
                access: PUBLIC_STATIC,
            },
        ),
        None => own,
    }
}

fn list_member_classes(
    class_name: &str,
    subclasses: &Vec<String>,
    nest_host: &Option<String>,
) -> (r: Vec<InnerClass>)
    ensures
        r.deep_view() == member_classes(
            class_name@,
            subclasses.deep_view(),
            nest_host.deep_view(),
        ),
{
    let ghost own = member_classes(class_name@, subclasses.deep_view(), None);
    let mut r: Vec<InnerClass> = Vec::new();
    for i in 0..subclasses.len()
        invariant
            own == member_classes(class_name@, subclasses.deep_view(), None),
            r@.len() == i,
            forall|k: int| #![trigger r@[k]] 0 <= k < i ==> r@[k].deep_view() == own[k],
    {
        r.push(
            InnerClass {
                class_name: subclasses[i].clone(),
                outer_class: class_name.to_string(),
                name: name_member_class(subclasses[i].as_str()),
                access: PUBLIC_STATIC,
            },
        );
    }
    assert(r.deep_view() =~= own);
    match nest_host {
        Some(host) => {
            let last = InnerClass {
                class_name: class_name.to_string(),
                outer_class: host.clone(),
                name: Some(find_simple_name(class_name)),
                access: PUBLIC_STATIC,
            };
            let ghost model = last.deep_view();
            r.push(last);
            assert(r.deep_view() =~= own.push(model));
        },
        None => {},
    }
    r
}

/// The first in order of the first texts.
pub open spec fn least(texts: Seq<Text>, n: nat) -> Option<Text>
    decreases n,
{
    if n == 0 || n > texts.len() {
        None
    } else {
        match least(texts, (n - 1) as nat) {
            Some(best) => if text_less(texts[n - 1], best) {
                Some(texts[n - 1])
            } else {
                Some(best)
            },
            None => Some(texts[n - 1]),
        }
    }
}

/// The least of some texts is one of them, and none of them comes before it.
pub proof fn least_is_the_least(texts: Seq<Text>, n: nat)
    requires
        0 < n <= texts.len(),
    ensures
        least(texts, n) matches Some(best) && texts.take(n as int).contains(best) && forall|i: int|
            0 <= i < n ==> !text_less(#[trigger] texts[i], best),
    decreases n,
{
    let last = texts[n - 1];
    assert(texts.take(n as int)[n - 1] == last);
    text_less_irreflexive(last);
    if n > 1 {
        least_is_the_least(texts, (n - 1) as nat);
        let best = least(texts, (n - 1) as nat)->0;
        let part = texts.take(n - 1);
        let k = choose|k: int| 0 <= k < part.len() && part[k] == best;
        assert(texts.take(n as int)[k] == best);
        if text_less(last, best) {
            assert forall|i: int| 0 <= i < n implies !text_less(#[trigger] texts[i], last) by {
                if text_less(texts[i], last) {
                    if i < n - 1 {
                        text_less_transitive(texts[i], last, best);
                    }
                }
            }
        }
    }
}

fn find_least(texts: &Vec<String>) -> (r: Option<String>)
    ensures
        r.deep_view() == least(texts.deep_view(), texts@.len()),
{
    let ghost model = texts.deep_view();
    let mut r: Option<String> = None;
    for i in 0..texts.len()
        invariant
            model == texts.deep_view(),
            r.deep_view() == least(model, i as nat),
    {
        assert(model[i as int] == texts@[i as int]@);
        let better: bool = match &r {
            Some(best) => less(texts[i].as_str(), best.as_str()),
            None => true,
        };
        if better {
            r = Some(texts[i].clone());
        }
    }
    r
}

/// The class file of a class.
pub open spec fn class_file(
    class_name: Text,
    fields: Seq<(Text, TypeModel)>,
    is_abstract: bool,
    names: Seq<Text>,
    methods: Map<Text, DataTypeMethodModel>,
    super_class: Text,
    interfaces: Seq<Text>,
    defs: DefinitionsModel,
    subclasses: Seq<Text>,
    nest_host: Option<Text>,
    source_files: Seq<Text>,
    relative: Seq<MemberRefModel>,
) -> ClassFileModel {
    let valued = valued_only(fields, fields.len());
    ClassFileModel {
        major_version: JAVA_8,
        minor_version: 0,
        access: if is_abstract {
            PUBLIC_SUPER_ABSTRACT
        } else {
            PUBLIC_FINAL_SUPER
        },
        this_class: class_name,
        super_class,
        interfaces: class_interfaces(interfaces, is_abstract),
        fields: class_fields(valued, is_abstract),
        methods: data_methods(
            class_name,
            names,
            methods,
            defs,
            relative,
            names.len(),
            standard_methods(class_name, super_class, valued, is_abstract),
        ),
        inner_classes: member_classes(class_name, subclasses, nest_host),
        source_file: least(source_files, source_files.len()),
    }
}

/// Makes the class file of a class.
pub fn create_data_type_classfile_for_class(
    class_name: &str,
    fields: &Vec<(String, Type)>,
    is_abstract: bool,
    methods: &NameMap<DataTypeMethod>,
    super_class: &str,
    interfaces: &Vec<String>,
    defs: &Definitions,
    subclasses: &Vec<String>,
    nest_host: &Option<String>,
    source_files: &Vec<String>,
    relative: &Vec<MemberRef>,
) -> (r: ClassFile)
    requires
        all_storable(valued_only(fields.deep_view(), fields@.len())),
        relative_fields_fit(valued_only(fields.deep_view(), fields@.len())),
        forall|k: Text| #[trigger]
            methods.deep_view().dom().contains(k) ==> method_fits(
                class_name@,
                methods.deep_view()[k],
            ),
    ensures
        r.deep_view() == class_file(
            class_name@,
            fields.deep_view(),
            is_abstract,
            methods.keys(),
            methods.deep_view(),
            super_class@,
            interfaces.deep_view(),
            defs.deep_view(),
            subclasses.deep_view(),
            nest_host.deep_view(),
            source_files.deep_view(),
            relative.deep_view(),
        ),
{
    let valued = keep_valued(fields);
    assert(fields.deep_view().len() == fields@.len());
    let mut jvm_methods = create_standard_methods(class_name, super_class, &valued, is_abstract);
    let ghost standard = jvm_methods.deep_view();
    methods.check();
    let count: usize = methods.len();
    for i in 0..count
        invariant
            methods.consistent(),
            count == methods.keys().len(),
            forall|k: Text| #[trigger]
                methods.deep_view().dom().contains(k) ==> method_fits(
                    class_name@,
                    methods.deep_view()[k],
                ),
            jvm_methods.deep_view() == data_methods(
                class_name@,
                methods.keys(),
                methods.deep_view(),
                defs.deep_view(),
                relative.deep_view(),
                i as nat,
                standard,
            ),
    {
        let ghost name = methods.keys()[i as int];
        assert(methods.deep_view().dom().contains(name));
        assert(methods.deep_view()[name] == methods.values()[i as int].deep_view());
        append_data_method(
            class_name,
            methods.key_at(i).as_str(),
            methods.value_at(i),
            defs,
            relative,
            &mut jvm_methods,
        );
    }
    assert(source_files.deep_view().len() == source_files@.len());
    ClassFile {
        major_version: JAVA_8,
        minor_version: 0,
        access: if is_abstract {
            PUBLIC_SUPER_ABSTRACT
        } else {
            PUBLIC_FINAL_SUPER
        },
        this_class: class_name.to_string(),
        super_class: super_class.to_string(),
        interfaces: list_interfaces(interfaces, is_abstract),
        fields: list_class_fields(&valued, is_abstract),
        methods: jvm_methods,
        inner_classes: list_member_classes(class_name, subclasses, nest_host),
        source_file: find_least(source_files),
    }
}

} // verus!
