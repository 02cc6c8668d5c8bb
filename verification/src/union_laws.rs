//! Which methods the class of a union has for its fields.
use crate::code::{DefinitionsModel, function_put, params1, params2};
use crate::lowering::{type_defined, union_methods};
use crate::oomir::{
    CodeBlockModel, DataTypeMethodModel, FunctionModel, Text, Type, TypeModel, has_value,
};
use crate::rust_type::{Field, lowered};
use crate::union_class::{
    field_methods, from_method, getter_method, getter_with, maker_with, setter_method, setter_with,
    union_fields,
};
use vstd::prelude::*;
use vstd::string::*;

verus! {

/// Whether methods have a function under a name that takes values of some types and gives one of
/// another.
pub open spec fn takes_and_gives(
    methods: Map<Text, DataTypeMethodModel>,
    name: Text,
    is_static: bool,
    taken: Seq<TypeModel>,
    given: TypeModel,
) -> bool {
    &&& methods.dom().contains(name)
    &&& methods[name] matches DataTypeMethodModel::Function(function)
    &&& function.name == name
    &&& function.signature.is_static == is_static
    &&& function.signature.params.len() == taken.len()
    &&& forall|i: int|
        0 <= i < taken.len() ==> (#[trigger] function.signature.params[i]).1 == taken[i]
    &&& function.signature.ret == given
}

/// The types that a field is set from: its own, unless it has no value.
pub open spec fn values_of(field: Field) -> Seq<TypeModel> {
    if has_value(lowered(field.ty)) {
        seq![lowered(field.ty)]
    } else {
        Seq::empty()
    }
}

/// Whether methods are those of a field: one that makes a union of a value, one that reads the
/// field, and one that writes it.
pub open spec fn has_methods_for(
    methods: Map<Text, DataTypeMethodModel>,
    union_class: Text,
    field: Field,
) -> bool {
    let own = Type::Class(union_class);
    &&& takes_and_gives(methods, "from_"@ + field.name@, true, values_of(field), own)
    &&& takes_and_gives(
        methods,
        "get_"@ + field.name@,
        false,
        seq![own],
        if has_value(lowered(field.ty)) {
            lowered(field.ty)
        } else {
            Type::Void
        },
    )
    &&& takes_and_gives(
        methods,
        "set_"@ + field.name@,
        false,
        seq![own] + values_of(field),
        Type::Void,
    )
}

proof fn prefixes_differ(a: Text, b: Text)
    ensures
        "from_"@ + a != "get_"@ + b,
        "from_"@ + a != "set_"@ + b,
        "get_"@ + a != "set_"@ + b,
        "from_"@ + a == "from_"@ + b ==> a == b,
        "get_"@ + a == "get_"@ + b ==> a == b,
        "set_"@ + a == "set_"@ + b ==> a == b,
{
    reveal_strlit("from_");
    reveal_strlit("get_");
    reveal_strlit("set_");
    assert(("from_"@ + a)[0] == 'f');
    assert(("get_"@ + a)[0] == 'g');
    assert(("get_"@ + b)[0] == 'g');
    assert(("set_"@ + b)[0] == 's');
    assert(("from_"@ + a).skip(5) =~= a);
    assert(("from_"@ + b).skip(5) =~= b);
    assert(("get_"@ + a).skip(4) =~= a);
    assert(("get_"@ + b).skip(4) =~= b);
    assert(("set_"@ + a).skip(4) =~= a);
    assert(("set_"@ + b).skip(4) =~= b);
}

/// The types of the parameters of a function and of its result are those of a method.
proof fn signature_is_met(
    methods: Map<Text, DataTypeMethodModel>,
    name: Text,
    function: FunctionModel,
    is_static: bool,
    taken: Seq<TypeModel>,
    given: TypeModel,
)
    requires
        methods.dom().contains(name),
        methods[name] == DataTypeMethodModel::Function(function),
        function.name == name,
        function.signature.is_static == is_static,
        function.signature.params.len() == taken.len(),
        forall|i: int|
            0 <= i < taken.len() ==> (#[trigger] function.signature.params[i]).1 == taken[i],
        function.signature.ret == given,
    ensures
        takes_and_gives(methods, name, is_static, taken, given),
{
}

proof fn methods_are_put(
    field: Field,
    union_class: Text,
    maker_body: CodeBlockModel,
    getter_body: CodeBlockModel,
    setter_body: CodeBlockModel,
    methods: Map<Text, DataTypeMethodModel>,
)
    ensures
        ({
            let given = if has_value(lowered(field.ty)) {
                lowered(field.ty)
            } else {
                Type::Void
            };
            let after = function_put(
                "set_"@ + field.name@,
                setter_with(union_class, field, setter_body),
                function_put(
                    "get_"@ + field.name@,
                    getter_with(union_class, field, given, getter_body),
                    function_put(
                        "from_"@ + field.name@,
                        maker_with(union_class, field, maker_body),
                        methods,
                    ),
                ),
            );
            &&& has_methods_for(after, union_class, field)
            &&& after.dom() == methods.dom().insert("from_"@ + field.name@).insert(
                "get_"@ + field.name@,
            ).insert("set_"@ + field.name@)
            &&& forall|name: Text|
                name != "from_"@ + field.name@ && name != "get_"@ + field.name@ && name != "set_"@
                    + field.name@ ==> #[trigger] after[name] == methods[name]
        }),
{
    reveal(params1);
    reveal(params2);
    prefixes_differ(field.name@, field.name@);
    let own = Type::Class(union_class);
    let given = if has_value(lowered(field.ty)) {
        lowered(field.ty)
    } else {
        Type::Void
    };
    let maker = maker_with(union_class, field, maker_body);
    let getter = getter_with(union_class, field, given, getter_body);
    let setter = setter_with(union_class, field, setter_body);
    let after = function_put(
        "set_"@ + field.name@,
        setter,
        function_put(
            "get_"@ + field.name@,
            getter,
            function_put("from_"@ + field.name@, maker, methods),
        ),
    );
    signature_is_met(after, "from_"@ + field.name@, maker, true, values_of(field), own);
    signature_is_met(after, "get_"@ + field.name@, getter, false, seq![own], given);
    signature_is_met(
        after,
        "set_"@ + field.name@,
        setter,
        false,
        seq![own] + values_of(field),
        Type::Void,
    );
    assert(after.dom() =~= methods.dom().insert("from_"@ + field.name@).insert(
        "get_"@ + field.name@,
    ).insert("set_"@ + field.name@));
}

/// Making the methods of a field adds its three methods, and changes no others.
pub proof fn fields_of_unions_have_their_methods(
    field: Field,
    union_class: Text,
    union_size: usize,
    objects_size: usize,
    defs: DefinitionsModel,
    methods: Map<Text, DataTypeMethodModel>,
)
    ensures
        ({
            let after = field_methods(
                field,
                union_class,
                union_size,
                objects_size,
                defs,
                methods,
            ).1;
            &&& has_methods_for(after, union_class, field)
            &&& after.dom() == methods.dom().insert("from_"@ + field.name@).insert(
                "get_"@ + field.name@,
            ).insert("set_"@ + field.name@)
            &&& forall|name: Text|
                name != "from_"@ + field.name@ && name != "get_"@ + field.name@ && name != "set_"@
                    + field.name@ ==> #[trigger] after[name] == methods[name]
        }),
{
    let (defs, maker) = from_method(union_class, union_size, objects_size, field, defs);
    let (defs, getter) = getter_method(union_class, field, defs);
    let (defs, setter) = setter_method(union_class, field, defs);
    methods_are_put(field, union_class, maker.body, getter.body, setter.body, methods);
}

/// A union has the three methods of each of its fields, if the names of the fields differ.
pub proof fn unions_have_methods_for_each_field(
    fields: Seq<Field>,
    union_class: Text,
    union_size: usize,
    objects_size: usize,
    from: nat,
    defs: DefinitionsModel,
    methods: Map<Text, DataTypeMethodModel>,
)
    requires
        forall|i: int, j: int|
            0 <= i < j < fields.len() ==> (#[trigger] fields[i]).name@ != (
            #[trigger] fields[j]).name@,
        forall|i: int|
            0 <= i < from && i < fields.len() ==> has_methods_for(
                methods,
                union_class,
                #[trigger] fields[i],
            ),
        from <= fields.len(),
    ensures
        forall|i: int|
            0 <= i < fields.len() ==> has_methods_for(
                union_methods(
                    fields,
                    union_class,
                    union_size,
                    objects_size,
                    from,
                    defs,
                    methods,
                ).1,
                union_class,
                #[trigger] fields[i],
            ),
    decreases fields.len() - from,
{
    if from < fields.len() {
        let item = fields[from as int];
        let ready = type_defined(item.ty, defs);
        let (next, more) = field_methods(
            item,
            union_class,
            union_size,
            objects_size,
            ready,
            methods,
        );
        fields_of_unions_have_their_methods(
            item,
            union_class,
            union_size,
            objects_size,
            ready,
            methods,
        );
        assert forall|i: int| 0 <= i < from + 1 && i < fields.len() implies has_methods_for(
            more,
            union_class,
            #[trigger] fields[i],
        ) by {
            if i < from {
                assert(fields[i].name@ != fields[from as int].name@);
                prefixes_differ(fields[i].name@, item.name@);
                prefixes_differ(item.name@, fields[i].name@);
                let name = fields[i].name@;
                assert(more["from_"@ + name] == methods["from_"@ + name]);
                assert(more["get_"@ + name] == methods["get_"@ + name]);
                assert(more["set_"@ + name] == methods["set_"@ + name]);
            }
        }
        unions_have_methods_for_each_field(
            fields,
            union_class,
            union_size,
            objects_size,
            from + 1,
            next,
            more,
        );
    }
}

/// The class of a union holds bytes and objects.
pub proof fn unions_hold_bytes_and_objects()
    ensures
        union_fields() == seq![
            ("_bytes"@, Type::Array(Box::new(Type::I8))),
            ("_objects"@, Type::Array(Box::new(Type::Class("java/lang/Object"@)))),
        ],
{
    reveal(params2);
}

} // verus!
