//! What the class files of data types and interfaces hold.
use crate::bridges::{constant_method_file, relative_signature};
use crate::class_files::{
    FunctionForm, class_fields, class_file, class_interfaces, data_method, data_methods, distinct,
    function_form, has_pointer, listed_fields, lowered_method, member_class_name, member_classes,
    simple_name, standard_methods, valued_only,
};
use crate::class_methods::{
    copy_method, copy_stack, field_constructor, field_stack, origin_getter, origin_methods,
    origin_setter, relative_slots, slots_before, slots_grow,
};
use crate::classes::interface_added;
use crate::code::DefinitionsModel;
use crate::descriptor::{descriptor, method_descriptor};
use crate::interface_files::{
    abstract_method, interface_file, interface_methods_listed, pointer_settled, settled_params,
    settling_method,
};
use crate::jvm_ops::{
    JvmFieldModel, JvmMethodModel, Kind, MemberRefModel, MethodBodyModel, Op, kind_of,
    known_field_type, no_ops, op_load, op_pushed, slot_width,
};
use crate::object_laws::{Contents, Given, run_begins_alike, run_of};
use crate::oomir::{
    ConstantModel, DataTypeMethodModel, SignatureModel, Text, Type, TypeModel, constant_type,
    has_value,
};
use crate::view_classes::{slice_view_class, utf8_view_class};
use vstd::prelude::*;
use vstd::string::*;

verus! {

/// The fields with a value.
pub open spec fn with_value(fields: Seq<(Text, TypeModel)>) -> Seq<(Text, TypeModel)> {
    fields.filter(|field: (Text, TypeModel)| has_value(field.1))
}

proof fn valued_are_kept(fields: Seq<(Text, TypeModel)>, n: nat)
    requires
        n <= fields.len(),
    ensures
        valued_only(fields, n) == with_value(fields.take(n as int)),
    decreases n,
{
    reveal(Seq::filter);
    let front = fields.take(n as int);
    if n > 0 {
        valued_are_kept(fields, (n - 1) as nat);
        assert(front.drop_last() =~= fields.take(n - 1));
        assert(front.last() == fields[n - 1]);
        assert(valued_only(fields, n) =~= with_value(front));
    } else {
        assert(front =~= Seq::<(Text, TypeModel)>::empty());
        assert(valued_only(fields, n) =~= with_value(front));
    }
}

/// The fields that the class file has for one field: the field itself, and two numbers of 64 bits
/// behind each pointer.
pub open spec fn fields_for(field: (Text, TypeModel)) -> Seq<JvmFieldModel> {
    let own = JvmFieldModel {
        access: 0x0001,
        name: field.0,
        descriptor: descriptor(field.1),
        field_type: known_field_type(field.1),
    };
    let offset = JvmFieldModel {
        access: 0x1001,
        name: field.0,
        descriptor: "J"@,
        field_type: known_field_type(Type::I64),
    };
    if field.1 is Pointer {
        seq![
            own,
            JvmFieldModel { name: field.0 + "$elementOffset"@, ..offset },
            JvmFieldModel { name: field.0 + "$byteOffset"@, ..offset },
        ]
    } else {
        seq![own]
    }
}

proof fn listed_in_order(fields: Seq<(Text, TypeModel)>, n: nat)
    requires
        n <= fields.len(),
    ensures
        listed_fields(fields, n) == fields.take(n as int).fold_left(
            Seq::<JvmFieldModel>::empty(),
            |list: Seq<JvmFieldModel>, field: (Text, TypeModel)| list + fields_for(field),
        ),
    decreases n,
{
    let f = |list: Seq<JvmFieldModel>, field: (Text, TypeModel)| list + fields_for(field);
    let front = fields.take(n as int);
    reveal_with_fuel(Seq::fold_left, 2);
    if n > 0 {
        listed_in_order(fields, (n - 1) as nat);
        assert(front.drop_last() =~= fields.take(n - 1));
        assert(front.last() == fields[n - 1]);
        let before = listed_fields(fields, (n - 1) as nat);
        assert(listed_fields(fields, n) =~= before + fields_for(fields[n - 1]));
    } else {
        assert(front =~= Seq::<(Text, TypeModel)>::empty());
    }
}

/// A class file has the fields of its class that have a value, in their order and with their
/// descriptors, two offsets behind each pointer, and the origin of the memory view at the end
/// unless the class is abstract.
pub proof fn class_files_have_their_fields(
    name: Text,
    fields: Seq<(Text, TypeModel)>,
    is_abstract: bool,
    names: Seq<Text>,
    methods: Map<Text, DataTypeMethodModel>,
    super_class: Text,
    interfaces: Seq<Text>,
    defs: DefinitionsModel,
    subclasses: Seq<Text>,
    nest_host: Option<Text>,
    source_files: Seq<Text>,
    relative: Seq<MemberRefModel>,
)
    ensures
        ({
            let file = class_file(
                name,
                fields,
                is_abstract,
                names,
                methods,
                super_class,
                interfaces,
                defs,
                subclasses,
                nest_host,
                source_files,
                relative,
            );
            let own = with_value(fields).fold_left(
                Seq::<JvmFieldModel>::empty(),
                |list: Seq<JvmFieldModel>, field: (Text, TypeModel)| list + fields_for(field),
            );
            &&& file.this_class == name
            &&& file.super_class == super_class
            &&& is_abstract ==> file.access == 0x0421 && file.fields == own
            &&& !is_abstract ==> {
                &&& file.access == 0x0031
                &&& file.fields.len() == own.len() + 1
                &&& file.fields.drop_last() == own
                &&& file.fields.last().name == "$rcj$memoryViewOrigin"@
                &&& file.fields.last().descriptor == "Ljava/lang/Object;"@
            }
        }),
{
    valued_are_kept(fields, fields.len());
    assert(fields.take(fields.len() as int) =~= fields);
    let valued = with_value(fields);
    listed_in_order(valued, valued.len());
    assert(valued.take(valued.len() as int) =~= valued);
    reveal_strlit("L");
    reveal_strlit(";");
    reveal_strlit("java/lang/Object");
    reveal_strlit("Ljava/lang/Object;");
    assert("L"@ + "java/lang/Object"@ + ";"@ =~= "Ljava/lang/Object;"@);
    let own = listed_fields(valued, valued.len());
    assert(class_fields(valued, false).drop_last() =~= own);
}

proof fn distinct_are_the_same(interfaces: Seq<Text>, n: nat)
    requires
        n <= interfaces.len(),
    ensures
        distinct(interfaces, n).no_duplicates(),
        forall|i: int| 0 <= i < n ==> distinct(interfaces, n).contains(#[trigger] interfaces[i]),
        forall|name: Text| #[trigger]
            distinct(interfaces, n).contains(name) ==> interfaces.contains(name),
    decreases n,
{
    if n > 0 {
        distinct_are_the_same(interfaces, (n - 1) as nat);
        let before = distinct(interfaces, (n - 1) as nat);
        one_is_added(before, interfaces[n - 1]);
        assert(interfaces.contains(interfaces[n - 1]));
    }
}

proof fn one_is_added(list: Seq<Text>, name: Text)
    requires
        list.no_duplicates(),
    ensures
        interface_added(list, name).no_duplicates(),
        interface_added(list, name).contains(name),
        forall|other: Text|
            list.contains(other) ==> #[trigger] interface_added(list, name).contains(other),
        forall|other: Text| #[trigger]
            interface_added(list, name).contains(other) ==> list.contains(other) || other == name,
{
    if !list.contains(name) {
        let after = list.push(name);
        assert(after.last() == name);
        assert forall|other: Text| list.contains(other) implies #[trigger] after.contains(
            other,
        ) by {
            let k = list.index_of(other);
            assert(after[k] == other);
        }
        assert forall|other: Text| #[trigger] after.contains(other) implies list.contains(other)
            || other == name by {
            let k = choose|k: int| 0 <= k < after.len() && after[k] == other;
            if k < list.len() {
                assert(list[k] == other);
            }
        }
    }
}

/// A class implements each of its interfaces once. One that is not abstract can also be copied and
/// carries the origin of its memory view; no class implements anything else.
pub proof fn classes_implement_each_interface_once(interfaces: Seq<Text>, is_abstract: bool)
    ensures
        ({
            let found = class_interfaces(interfaces, is_abstract);
            &&& found.no_duplicates()
            &&& forall|i: int|
                0 <= i < interfaces.len() ==> found.contains(#[trigger] interfaces[i])
            &&& !is_abstract ==> found.contains("org/rustlang/runtime/RustCopy"@)
                && found.contains("org/rustlang/runtime/MemoryViewOriginCarrier"@)
            &&& forall|name: Text| #[trigger]
                found.contains(name) ==> interfaces.contains(name) || (!is_abstract && (name
                    == "org/rustlang/runtime/RustCopy"@ || name
                    == "org/rustlang/runtime/MemoryViewOriginCarrier"@))
        }),
{
    distinct_are_the_same(interfaces, interfaces.len());
    let given = distinct(interfaces, interfaces.len());
    one_is_added(given, "org/rustlang/runtime/RustCopy"@);
    one_is_added(
        interface_added(given, "org/rustlang/runtime/RustCopy"@),
        "org/rustlang/runtime/MemoryViewOriginCarrier"@,
    );
}

/// A method that returns a constant pushes this constant and returns it as what it is; one without
/// a constant is abstract. Both take nothing and give the type that is asked for.
pub proof fn constant_methods_return_their_constant(
    name: Text,
    ty: TypeModel,
    value: Option<ConstantModel>,
)
    ensures
        ({
            let method = constant_method_file(name, ty, value);
            &&& method.name == name
            &&& method.descriptor == "()"@ + descriptor(ty)
            &&& value matches Some(constant) ==> {
                &&& method.access == 0x0011
                &&& method.body matches MethodBodyModel::Ops { max_stack, ops, .. }
                &&& max_stack >= slot_width(constant_type(constant))
                &&& max_stack >= 1
                &&& ops == seq![
                    Op::PushConstant { constant },
                    Op::Return { kind: kind_of(constant_type(constant)) },
                ]
            }
            &&& value is None ==> method.access == 0x0401 && method.body is Abstract
        }),
{
    if let Some(constant) = value {
        let ops = constant_method_file(name, ty, value).body->ops;
        assert(ops =~= seq![
            Op::PushConstant { constant },
            Op::Return { kind: kind_of(constant_type(constant)) },
        ]);
    }
}

/// Whether methods have one of a name.
pub open spec fn has_named(methods: Seq<JvmMethodModel>, name: Text) -> bool {
    exists|i: int| 0 <= i < methods.len() && (#[trigger] methods[i]).name == name
}

/// Whether methods are there still, in front of others.
pub open spec fn goes_before(front: Seq<JvmMethodModel>, methods: Seq<JvmMethodModel>) -> bool {
    &&& front.len() <= methods.len()
    &&& methods.take(front.len() as int) == front
}

proof fn names_stay(front: Seq<JvmMethodModel>, methods: Seq<JvmMethodModel>, name: Text)
    requires
        goes_before(front, methods),
        has_named(front, name),
    ensures
        has_named(methods, name),
{
    let i = choose|i: int| 0 <= i < front.len() && (#[trigger] front[i]).name == name;
    assert(methods.take(front.len() as int)[i] == methods[i]);
}

proof fn method_is_added(
    class_name: Text,
    name: Text,
    method: DataTypeMethodModel,
    defs: DefinitionsModel,
    relative: Seq<MemberRefModel>,
    before: Seq<JvmMethodModel>,
)
    ensures
        goes_before(before, data_method(class_name, name, method, defs, relative, before)),
        has_named(data_method(class_name, name, method, defs, relative, before), name),
{
    reveal(crate::comparisons::variant_test_method);
    reveal(crate::comparisons::enum_equality_method);
    reveal(crate::comparisons::class_equality_method);
    let after = data_method(class_name, name, method, defs, relative, before);
    assert(after.take(before.len() as int) =~= before);
    match method {
        DataTypeMethodModel::Function(function) => {
            let form = function_form(class_name, name, function.signature, relative);
            if form.is_listed {
                assert(after[before.len() as int + 1].name == name);
            } else {
                assert(after[before.len() as int].name == name);
            }
        },
        _ => {
            assert(after[before.len() as int].name == name);
        },
    }
}

/// Each method of a class has a method of its name in the class file, behind those that every class
/// has.
pub proof fn every_method_is_in_the_class_file(
    class_name: Text,
    names: Seq<Text>,
    methods: Map<Text, DataTypeMethodModel>,
    defs: DefinitionsModel,
    relative: Seq<MemberRefModel>,
    n: nat,
    before: Seq<JvmMethodModel>,
)
    requires
        n <= names.len(),
    ensures
        goes_before(before, data_methods(class_name, names, methods, defs, relative, n, before)),
        forall|i: int|
            0 <= i < n ==> has_named(
                data_methods(class_name, names, methods, defs, relative, n, before),
                #[trigger] names[i],
            ),
    decreases n,
{
    let after = data_methods(class_name, names, methods, defs, relative, n, before);
    if n > 0 {
        let less = (n - 1) as nat;
        every_method_is_in_the_class_file(
            class_name,
            names,
            methods,
            defs,
            relative,
            less,
            before,
        );
        let front = data_methods(class_name, names, methods, defs, relative, less, before);
        method_is_added(class_name, names[n - 1], methods[names[n - 1]], defs, relative, front);
        assert(after.take(before.len() as int) =~= after.take(front.len() as int).take(
            before.len() as int,
        ));
        assert forall|i: int| 0 <= i < n implies has_named(after, #[trigger] names[i]) by {
            if i < less {
                names_stay(front, after, names[i]);
            }
        }
    } else {
        assert(after.take(before.len() as int) =~= before);
    }
}

/// A function is static in the class file if and only if it is static. It has its own descriptor,
/// or that with offsets behind each pointer, under its name with a suffix where callers without
/// offsets go on to it.
pub proof fn functions_keep_their_form(name: Text, signature: SignatureModel, form: FunctionForm)
    ensures
        ({
            let method = lowered_method(name, signature, form);
            let with_offsets = form.is_listed || form.is_adapter;
            &&& method.access == (if signature.is_static {
                0x0009u16
            } else {
                0x0001u16
            })
            &&& method.name == (if form.is_listed {
                name + "$relative"@
            } else {
                name
            })
            &&& method.descriptor == method_descriptor(
                if with_offsets {
                    relative_signature(signature)
                } else {
                    signature
                },
            )
            &&& method.body == (MethodBodyModel::Lowered {
                function: name,
                is_relative: with_offsets,
            })
        }),
{
}

/// Every class file has a constructor; one that is not abstract has a copy method and the two
/// methods for the origin of its memory view, and one with a pointer has a second constructor.
pub proof fn classes_have_their_standard_methods(
    class_name: Text,
    super_class: Text,
    fields: Seq<(Text, TypeModel)>,
    is_abstract: bool,
)
    ensures
        ({
            let methods = standard_methods(class_name, super_class, fields, is_abstract);
            &&& has_named(methods, "<init>"@)
            &&& !is_abstract ==> {
                &&& has_named(methods, "rustCopy"@)
                &&& has_named(methods, "$rcj$getMemoryViewOrigin"@)
                &&& has_named(methods, "$rcj$setMemoryViewOrigin"@)
            }
            &&& methods.len() == 1 + (if is_abstract {
                0int
            } else {
                3
            }) + (if has_pointer(fields) {
                1int
            } else {
                0
            })
        }),
{
    reveal(origin_methods);
    reveal(origin_getter);
    reveal(origin_setter);
    let methods = standard_methods(class_name, super_class, fields, is_abstract);
    reveal(crate::class_methods::default_constructor);
    assert(methods[0].name == "<init>"@);
    if !is_abstract {
        assert(methods[1].name == "$rcj$getMemoryViewOrigin"@);
        assert(methods[2].name == "$rcj$setMemoryViewOrigin"@);
        assert(methods[methods.len() - 1].name == "rustCopy"@);
    }
}

/// The two methods for the origin of a memory view read and write the same field.
pub proof fn origins_are_read_from_where_they_are_written(
    class_name: Text,
    methods: Seq<JvmMethodModel>,
)
    ensures
        ({
            let getter = origin_getter(class_name, methods).last();
            let setter = origin_setter(class_name, methods).last();
            &&& getter.body matches MethodBodyModel::Ops { ops: reads, .. }
            &&& setter.body matches MethodBodyModel::Ops { ops: writes, .. }
            &&& reads.len() == 3
            &&& writes.len() == 4
            &&& reads[1] matches Op::GetField { member: read }
            &&& writes[2] matches Op::PutField { member: written }
            &&& read == written
            &&& read.owner == class_name
            &&& reads[0] == (Op::<Text>::Load { kind: Kind::Reference, local: 0 })
            &&& reads[2] == (Op::<Text>::Return { kind: Kind::Reference })
            &&& writes[0] == (Op::<Text>::Load { kind: Kind::Reference, local: 0 })
            &&& writes[1] == (Op::<Text>::Load { kind: Kind::Reference, local: 1 })
        }),
{
    reveal(origin_getter);
    reveal(origin_setter);
}

proof fn stack_holds_each_field(fields: Seq<(Text, TypeModel)>, n: nat, i: int)
    requires
        0 <= i < n <= fields.len(),
        has_value(fields[i].1),
    ensures
        field_stack(fields, n) >= 1 + slot_width(fields[i].1),
    decreases n,
{
    if i < n - 1 {
        stack_holds_each_field(fields, (n - 1) as nat, i);
    }
}

/// The stack of a constructor has room for the object and the value of any one field, and its
/// variables for the object and the values of all fields.
pub proof fn constructors_have_room(
    this_class: Text,
    super_class: Text,
    fields: Seq<(Text, TypeModel)>,
    i: int,
)
    requires
        0 <= i < fields.len(),
        has_value(fields[i].1),
        1 + slots_before(fields, fields.len()) <= u16::MAX,
    ensures
        field_constructor(this_class, super_class, fields).body matches MethodBodyModel::Ops {
            max_stack,
            max_locals,
            ..
        } && max_stack >= 1 + slot_width(fields[i].1) && max_locals >= 1 + slots_before(
            fields,
            i as nat,
        ) + slot_width(fields[i].1),
{
    stack_holds_each_field(fields, fields.len(), i);
    slots_grow(fields, (i + 1) as nat, fields.len());
}

proof fn copy_stack_grows(fields: Seq<(Text, TypeModel)>, n: nat, i: int)
    requires
        n <= fields.len(),
        7 + slots_before(fields, fields.len()) <= u16::MAX,
    ensures
        copy_stack(fields, n).0 == slots_before(fields, n),
        copy_stack(fields, n).1 >= 2 + slots_before(fields, n),
        0 <= i < n && fields[i].1 is Pointer ==> copy_stack(fields, n).1 >= 7 + slots_before(
            fields,
            i as nat,
        ),
    decreases n,
{
    slots_grow(fields, n, fields.len());
    if n > 0 {
        copy_stack_grows(fields, (n - 1) as nat, i);
    }
}

/// The stack of a copy method has room for the new object twice and the values of all fields, and
/// for the pointer and two offsets on top of the values before it.
pub proof fn copies_have_room(class_name: Text, fields: Seq<(Text, TypeModel)>, i: int)
    requires
        7 + slots_before(fields, fields.len()) <= u16::MAX,
    ensures
        copy_method(class_name, fields).body matches MethodBodyModel::Ops { max_stack, .. }
            && max_stack >= 2 + slots_before(fields, fields.len()) && (0 <= i < fields.len()
            && fields[i].1 is Pointer ==> max_stack >= 2 + slots_before(fields, i as nat) + 5),
{
    copy_stack_grows(fields, fields.len(), i);
}

proof fn simple_name_is_behind(name: Text)
    ensures
        simple_name(name).len() <= name.len(),
        name.skip(name.len() - simple_name(name).len()) == simple_name(name),
        forall|i: int| 0 <= i < simple_name(name).len() ==> #[trigger] simple_name(name)[i] != '$',
        simple_name(name).len() < name.len() ==> name[name.len() - simple_name(name).len() - 1]
            == '$',
    decreases name.len(),
{
    if name.len() > 0 && name.last() != '$' {
        let front = name.drop_last();
        simple_name_is_behind(front);
        let short = simple_name(front);
        assert(name.skip(name.len() - simple_name(name).len()) =~= simple_name(name)) by {
            assert forall|k: int| 0 <= k < short.len() implies name[front.len() - short.len() + k]
                == short[k] by {
                assert(front.skip(front.len() - short.len())[k] == short[k]);
            }
        }
    } else {
        assert(name.skip(name.len() - simple_name(name).len()) =~= simple_name(name));
    }
}

/// A member class is named by what stands behind the last `$` of its name, which has no `$` itself.
/// One that has no `$`, or only digits behind it, has no name as a member.
pub proof fn members_are_named_by_their_end(class_name: Text)
    ensures
        member_class_name(class_name) matches Some(name) ==> {
            &&& name.len() < class_name.len()
            &&& class_name.skip(class_name.len() - name.len()) == name
            &&& class_name[class_name.len() - name.len() - 1] == '$'
            &&& forall|i: int| 0 <= i < name.len() ==> #[trigger] name[i] != '$'
            &&& exists|i: int| 0 <= i < name.len() && !('0' <= #[trigger] name[i] <= '9')
        },
        (forall|i: int| 0 <= i < class_name.len() ==> #[trigger] class_name[i] != '$')
            ==> member_class_name(class_name) is None,
{
    simple_name_is_behind(class_name);
    let name = simple_name(class_name);
    if name.len() == class_name.len() {
        assert(class_name.skip(0) =~= class_name);
    }
}

/// The member classes of a class file are the given subclasses, each inside the class, and the
/// class itself inside its host if it has one.
pub proof fn members_are_listed(class_name: Text, subclasses: Seq<Text>, nest_host: Option<Text>)
    ensures
        ({
            let members = member_classes(class_name, subclasses, nest_host);
            &&& members.len() == subclasses.len() + (if nest_host is Some {
                1int
            } else {
                0
            })
            &&& forall|i: int|
                0 <= i < subclasses.len() ==> (#[trigger] members[i]).class_name == subclasses[i]
                    && members[i].outer_class == class_name
            &&& nest_host matches Some(host) ==> members.last().class_name == class_name
                && members.last().outer_class == host
        }),
{
}

/// Whether methods have an abstract one of a name with a descriptor.
pub open spec fn has_abstract(methods: Seq<JvmMethodModel>, name: Text, types: Text) -> bool {
    exists|i: int|
        0 <= i < methods.len() && (#[trigger] methods[i]).name == name && methods[i].descriptor
            == types && methods[i].body is Abstract
}

/// An interface has an abstract method for each of its methods; all parameters stand in its
/// descriptor, as it is called on an object that is not among them.
pub proof fn interfaces_have_their_methods(
    interface_name: Text,
    names: Seq<Text>,
    methods: Map<Text, SignatureModel>,
    n: nat,
)
    requires
        n <= names.len(),
        interface_methods_listed(interface_name, names, methods, n) is Ok,
    ensures
        forall|i: int|
            0 <= i < n ==> has_abstract(
                interface_methods_listed(interface_name, names, methods, n)->Ok_0,
                #[trigger] names[i],
                method_descriptor(
                    SignatureModel {
                        params: methods[names[i]].params,
                        ret: methods[names[i]].ret,
                        is_static: true,
                    },
                ),
            ),
    decreases n,
{
    if n > 0 {
        let less = (n - 1) as nat;
        interfaces_have_their_methods(interface_name, names, methods, less);
        let front = interface_methods_listed(interface_name, names, methods, less)->Ok_0;
        let after = interface_methods_listed(interface_name, names, methods, n)->Ok_0;
        assert forall|i: int| 0 <= i < n implies has_abstract(
            after,
            #[trigger] names[i],
            method_descriptor(
                SignatureModel {
                    params: methods[names[i]].params,
                    ret: methods[names[i]].ret,
                    is_static: true,
                },
            ),
        ) by {
            let types = method_descriptor(
                SignatureModel {
                    params: methods[names[i]].params,
                    ret: methods[names[i]].ret,
                    is_static: true,
                },
            );
            if i < less {
                assert(has_abstract(front, names[i], types));
                let k = choose|k: int|
                    0 <= k < front.len() && (#[trigger] front[k]).name == names[i]
                        && front[k].descriptor == types && front[k].body is Abstract;
                assert(after[k] == front[k]);
            } else {
                assert(after[front.len() as int] == abstract_method(names[i], methods[names[i]]));
            }
        }
    }
}

/// What a function pointer is called with: the function itself, and each argument with a value. A
/// pointer comes with two offsets behind it and is made one that needs none.
pub open spec fn settled_arguments(g: Given, params: Seq<(Text, TypeModel)>, n: nat) -> Seq<int>
    decreases n,
{
    if n == 0 || n > params.len() {
        seq![(g.locals)(0)]
    } else {
        let before = settled_arguments(g, params, (n - 1) as nat);
        let local = (1 + relative_slots(params, (n - 1) as nat)) as u16;
        if params[n - 1].1 is Pointer {
            before.push(
                (g.settle)(
                    (g.locals)(local),
                    (g.locals)((local + 1) as u16),
                    (g.locals)((local + 3) as u16),
                ),
            )
        } else if has_value(params[n - 1].1) {
            before.push((g.locals)(local))
        } else {
            before
        }
    }
}

proof fn arguments_are_settled(
    g: Given,
    params: Seq<(Text, TypeModel)>,
    n: nat,
    contents: Contents,
)
    requires
        n <= params.len(),
    ensures
        ({
            let ops = settled_params(
                params,
                n,
                op_pushed(op_load(Kind::Reference, 0), no_ops()),
            );
            run_of(g, ops, ops.len(), Seq::empty(), contents) == (
                settled_arguments(g, params, n),
                contents,
            )
        }),
    decreases n,
{
    reveal(pointer_settled);
    reveal_strlit("materializeRelative");
    let none = Seq::<int>::empty();
    let start = op_pushed(op_load(Kind::Reference, 0), no_ops());
    reveal_with_fuel(run_of, 2);
    if n > 0 {
        let less = (n - 1) as nat;
        arguments_are_settled(g, params, less, contents);
        let before = settled_params(params, less, start);
        let all = settled_params(params, n, start);
        let ty = params[n - 1].1;
        let local = (1 + relative_slots(params, less)) as u16;
        let m = before.len();
        let s0 = settled_arguments(g, params, less);
        if has_value(ty) {
            run_begins_alike(g, before, all, m, none, contents);
            assert(run_of(g, all, m, none, contents) == (s0, contents));
            let s1 = s0.push((g.locals)(local));
            assert(run_of(g, all, m + 1, none, contents) == (s1, contents));
            if ty is Pointer {
                let s2 = s1.push((g.locals)((local + 1) as u16));
                let s3 = s2.push((g.locals)((local + 3) as u16));
                assert(run_of(g, all, m + 2, none, contents) == (s2, contents));
                assert(run_of(g, all, m + 3, none, contents) == (s3, contents));
                assert(s3.take(s3.len() - 3) =~= s0);
                assert(all.len() == m + 4);
            } else {
                assert(all.len() == m + 1);
            }
        }
    } else {
        assert(run_of(g, start, 1, none, contents).0 =~= seq![(g.locals)(0)]);
    }
}

/// The method through which a function pointer is called with offsets makes each pointer one that
/// needs none, hands on every argument in its order to the method of the interface, and returns
/// what that returns.
pub proof fn settling_hands_on_each_argument(
    g: Given,
    interface_name: Text,
    signature: SignatureModel,
    contents: Contents,
)
    ensures
        ({
            let method = settling_method(interface_name, signature);
            let ops = method.body->ops;
            let n = ops.len() as int;
            &&& method.name == "call$relative"@
            &&& n >= 2
            &&& ops[n - 2] matches Op::InvokeInterface { member, slots }
            &&& member.owner == interface_name
            &&& member.name == "call"@
            &&& member.descriptor == method_descriptor(
                SignatureModel { params: signature.params, ret: signature.ret, is_static: true },
            )
            &&& slots == (1 + slots_before(signature.params, signature.params.len())) as u8
            &&& ops[n - 1] == (Op::<Text>::Return { kind: kind_of(signature.ret) })
            &&& run_of(g, ops, (n - 2) as nat, Seq::empty(), contents).0 == settled_arguments(
                g,
                signature.params,
                signature.params.len(),
            )
        }),
{
    reveal_strlit("call");
    reveal_strlit("$relative");
    reveal_strlit("call$relative");
    assert("call"@ + "$relative"@ =~= "call$relative"@);
    let params = signature.params;
    let ops = settling_method(interface_name, signature).body->ops;
    let before = settled_params(
        params,
        params.len(),
        op_pushed(op_load(Kind::Reference, 0), no_ops()),
    );
    arguments_are_settled(g, params, params.len(), contents);
    run_begins_alike(g, before, ops, before.len(), Seq::empty(), contents);
    assert(ops.len() == before.len() + 2);
}

/// The class file of an interface has its name, no fields, the root class above it, and the methods
/// that are listed for it; where they cannot be listed, there is none.
pub proof fn interface_files_hold_their_methods(
    name: Text,
    names: Seq<Text>,
    methods: Map<Text, SignatureModel>,
)
    ensures
        match (interface_file(name, names, methods), interface_methods_listed(
            name,
            names,
            methods,
            names.len(),
        )) {
            (Ok(file), Ok(listed)) => {
                &&& file.this_class == name
                &&& file.super_class == "java/lang/Object"@
                &&& file.access == 0x0601
                &&& file.fields.len() == 0
                &&& file.interfaces.len() == 0
                &&& file.methods == listed
            },
            (Err(a), Err(b)) => a == b,
            _ => false,
        },
{
}

/// A view of text is a view of a slice: its class extends that, and adds no fields to the
/// allocation, the start and the two lengths.
pub proof fn views_of_text_are_views_of_slices()
    ensures
        utf8_view_class().super_class == slice_view_class().this_class,
        utf8_view_class().fields.len() == 0,
        slice_view_class().super_class == "java/lang/Object"@,
        slice_view_class().fields.len() == 4,
        slice_view_class().fields[0].name == "array"@,
        slice_view_class().fields[0].descriptor == "Ljava/lang/Object;"@,
        slice_view_class().fields[1].name == "offset"@,
        slice_view_class().fields[1].descriptor == "I"@,
        slice_view_class().fields[2].name == "rustLength"@,
        slice_view_class().fields[2].descriptor == "J"@,
        slice_view_class().fields[3].name == "length"@,
        slice_view_class().fields[3].descriptor == "I"@,
{
    reveal_strlit("L");
    reveal_strlit(";");
    reveal_strlit("java/lang/Object");
    reveal_strlit("Ljava/lang/Object;");
    assert("L"@ + "java/lang/Object"@ + ";"@ =~= "Ljava/lang/Object;"@);
}

} // verus!
