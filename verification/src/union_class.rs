//! The classes of unions: bytes and objects, and methods that write and read each field.
use crate::code::{
    Code, CodeModel, Definitions, DefinitionsModel, array_new, byte_array, byte_array_type, class,
    class_type, construct, emit, empty_code, field_read, function_put, i32_operand, i32_value,
    instance_method, instance_signature, make_function, make_params0, make_params1, make_params2,
    make_typed2, makes_array, makes_object, object_array, object_array_type, operand_var, params0,
    params1, params2, plain_function, put_function, reads_field, return_nothing, return_value,
    returns_nothing, returns_value, simple_body, single_block, static_method, static_signature,
    typed2, unsupported_body, unsupported_union_body, variable,
};
use crate::codec::{UNION_BYTES_FIELD, UNION_OBJECTS_FIELD};
use crate::layout::valid;
use crate::load::{emit_ty_from_union_bytes, loaded};
use crate::name_map::NameMap;
use crate::names::{union_from_method_name, union_getter_method_name, union_setter_method_name};
use crate::oomir::{
    CodeBlock, CodeBlockModel, DataTypeMethod, DataTypeMethodModel, Function, FunctionModel, Text,
    Type, TypeModel, has_value,
};
use crate::rust_type::{Field, RustType, lowered};
use crate::store::{emit_ty_to_union_bytes, stored};
use crate::union_storage::{
    UnionStorage, allocate_union_object_storage, makes_objects, storage_at_start,
};
use vstd::prelude::*;
use vstd::string::*;

verus! {

/// The parameter that holds the value of a field; a field without JVM value needs none.
pub open spec fn value_params(ty: TypeModel) -> Seq<(Text, TypeModel)> {
    if has_value(ty) {
        params1("value"@, ty)
    } else {
        params0()
    }
}

/// The parameter that holds the value of a field.
pub fn make_value_params(ty: &Type) -> (r: Vec<(String, Type)>)
    ensures
        r.deep_view() == value_params(ty.deep_view()),
{
    if ty.has_jvm_value() {
        make_params1("value", ty)
    } else {
        make_params0()
    }
}

/// The receiver, and the parameter that holds the value of a field.
pub open spec fn setter_params(class_name: Text, ty: TypeModel) -> Seq<(Text, TypeModel)> {
    if has_value(ty) {
        params2("self"@, class(class_name), "value"@, ty)
    } else {
        params1("self"@, class(class_name))
    }
}

fn make_setter_params(class_name: &str, ty: &Type) -> (r: Vec<(String, Type)>)
    ensures
        r.deep_view() == setter_params(class_name@, ty.deep_view()),
{
    if ty.has_jvm_value() {
        make_params2("self", &class_type(class_name), "value", ty)
    } else {
        make_params1("self", &class_type(class_name))
    }
}

/// The method that makes a union from the value of a field; as with the other two methods of the
/// field, its name ends in the JVM name of the field.
pub open spec fn maker_with(
    union_class: Text,
    field: Field,
    body: CodeBlockModel,
) -> FunctionModel {
    plain_function(
        "from_"@ + field.name@,
        static_method(value_params(lowered(field.ty)), class(union_class)),
        body,
    )
}

fn make_maker(union_class: &str, field: &Field, body: CodeBlock) -> (r: Function)
    ensures
        r.deep_view() == maker_with(union_class@, *field, body.deep_view()),
{
    make_function(
        union_from_method_name(field.name.as_str()).as_str(),
        static_signature(&make_value_params(&field.ty.jvm_type()), &class_type(union_class)),
        body,
    )
}

/// The method that reads a field of a union.
pub open spec fn getter_with(
    union_class: Text,
    field: Field,
    ret: TypeModel,
    body: CodeBlockModel,
) -> FunctionModel {
    plain_function(
        "get_"@ + field.name@,
        instance_method(params1("self"@, class(union_class)), ret),
        body,
    )
}

fn make_getter(union_class: &str, field: &Field, ret: &Type, body: CodeBlock) -> (r: Function)
    ensures
        r.deep_view() == getter_with(union_class@, *field, ret.deep_view(), body.deep_view()),
{
    make_function(
        union_getter_method_name(field.name.as_str()).as_str(),
        instance_signature(&make_params1("self", &class_type(union_class)), ret),
        body,
    )
}

/// The method that writes a field of a union.
pub open spec fn setter_with(
    union_class: Text,
    field: Field,
    body: CodeBlockModel,
) -> FunctionModel {
    plain_function(
        "set_"@ + field.name@,
        instance_method(setter_params(union_class, lowered(field.ty)), Type::Void),
        body,
    )
}

fn make_setter(union_class: &str, field: &Field, body: CodeBlock) -> (r: Function)
    ensures
        r.deep_view() == setter_with(union_class@, *field, body.deep_view()),
{
    make_function(
        union_setter_method_name(field.name.as_str()).as_str(),
        instance_signature(&make_setter_params(union_class, &field.ty.jvm_type()), &Type::Void),
        body,
    )
}

/// The storage of a union, read from its fields.
#[verifier::opaque]
pub open spec fn storage_read(union_class: Text, code: CodeModel) -> CodeModel {
    let code = emit(
        code,
        reads_field(
            "_bytes"@,
            variable("_1"@, class(union_class)),
            UNION_BYTES_FIELD@,
            byte_array(),
            union_class,
        ),
    );
    let code = emit(
        code,
        reads_field(
            "_objects"@,
            variable("_1"@, class(union_class)),
            UNION_OBJECTS_FIELD@,
            object_array(),
            union_class,
        ),
    );
    code
}

/// Reads the storage of a union from its fields.
pub fn emit_storage_read(union_class: &str, code: &mut Code)
    ensures
        final(code).deep_view() == storage_read(union_class@, old(code).deep_view()),
{
    proof {
        reveal(storage_read);
    }
    code.push(
        field_read(
            "_bytes",
            &operand_var("_1", &class_type(union_class)),
            UNION_BYTES_FIELD,
            &byte_array_type(),
            union_class,
        ),
    );
    code.push(
        field_read(
            "_objects",
            &operand_var("_1", &class_type(union_class)),
            UNION_OBJECTS_FIELD,
            &object_array_type(),
            union_class,
        ),
    );
}

/// The body that makes a union from the value of a field.
pub open spec fn from_body(
    union_class: Text,
    union_size: usize,
    objects_size: usize,
    field: Field,
    defs: DefinitionsModel,
) -> (DefinitionsModel, CodeBlockModel)
    decreases field, 1nat, 0nat,
{
    let code = empty_code(0);
    let code = emit(code, makes_array("_bytes"@, Type::I8, i32_value(jvm_number(union_size))));
    let code = emit(code, makes_objects("_objects"@, objects_size));
    let (code, defs, outcome) = stored(
        field.ty,
        variable("_1"@, lowered(field.ty)),
        storage_at_start("_bytes"@, "_objects"@),
        0,
        code,
        defs,
    );
    match outcome {
        Ok(_) => {
            let code = emit(
                code,
                makes_object(
                    "_ret"@,
                    union_class,
                    typed2(
                        variable("_bytes"@, byte_array()),
                        byte_array(),
                        variable("_objects"@, object_array()),
                        object_array(),
                    ),
                ),
            );
            let code = emit(code, returns_value(variable("_ret"@, class(union_class))));
            let list = code.instructions;
            (defs, single_block(list))
        },
        Err(error) => {
            (defs, unsupported_body(error))
        },
    }
}

/// Makes the body that makes a union from the value of a field.
#[verifier::rlimit(60)]
pub fn union_from_body(
    union_class: &str,
    union_size: usize,
    objects_size: usize,
    field: &Field,
    defs: &mut Definitions,
) -> (r: CodeBlock)
    requires
        valid(field.ty),
    ensures
        (
            final(defs).deep_view(),
            r.deep_view(),
        ) == from_body(union_class@, union_size, objects_size, *field, old(defs).deep_view()),
    decreases field, 1nat,
{
    let mut code = Code::new(0);
    code.push(array_new("_bytes", &Type::I8, &i32_operand(jvm_number_of(union_size))));
    code.push(allocate_union_object_storage("_objects", objects_size));
    let outcome = emit_ty_to_union_bytes(
        &field.ty,
        &operand_var("_1", &RustType::jvm_type(&field.ty)),
        &UnionStorage::at_start("_bytes", "_objects"),
        0,
        &mut code,
        defs,
    );
    match outcome {
        Ok(_) => {
            code.push(
                construct(
                    "_ret",
                    union_class,
                    &make_typed2(
                        &operand_var("_bytes", &byte_array_type()),
                        &byte_array_type(),
                        &operand_var("_objects", &object_array_type()),
                        &object_array_type(),
                    ),
                ),
            );
            code.push(return_value(&operand_var("_ret", &class_type(union_class))));
            let list = code.into_instructions();
            simple_body(&list)
        },
        Err(error) => {
            unsupported_union_body(error.as_str())
        },
    }
}

/// The method that makes a union from the value of a field; what cannot be stored makes a body that
/// throws.
pub open spec fn from_method(
    union_class: Text,
    union_size: usize,
    objects_size: usize,
    field: Field,
    defs: DefinitionsModel,
) -> (DefinitionsModel, FunctionModel)
    decreases field, 2nat, 0nat,
{
    let (defs, body) = from_body(union_class, union_size, objects_size, field, defs);
    (defs, maker_with(union_class, field, body))
}

/// Makes the method that makes a union from the value of a field.
#[verifier::rlimit(60)]
pub fn union_from_function(
    union_class: &str,
    union_size: usize,
    objects_size: usize,
    field: &Field,
    defs: &mut Definitions,
) -> (r: Function)
    requires
        valid(field.ty),
    ensures
        (final(defs).deep_view(), r.deep_view()) == from_method(
            union_class@,
            union_size,
            objects_size,
            *field,
            old(defs).deep_view(),
        ),
    decreases field, 2nat,
{
    let body = union_from_body(union_class, union_size, objects_size, field, defs);
    make_maker(union_class, field, body)
}

/// The body that reads a field of a union.
pub open spec fn getter_body(
    union_class: Text,
    field: Field,
    defs: DefinitionsModel,
) -> (DefinitionsModel, CodeBlockModel)
    decreases field, 1nat, 0nat,
{
    let code = empty_code(0);
    let code = storage_read(union_class, code);
    let (code, defs, outcome) = loaded(
        field.ty,
        storage_at_start("_bytes"@, "_objects"@),
        0,
        code,
        defs,
    );
    match outcome {
        Ok(value) => {
            let code = emit(code, returns_value(value));
            let list = code.instructions;
            (defs, single_block(list))
        },
        Err(error) => {
            (defs, unsupported_body(error))
        },
    }
}

/// Makes the body that reads a field of a union.
#[verifier::rlimit(60)]
pub fn union_getter_body(
    union_class: &str,
    field: &Field,
    defs: &mut Definitions,
) -> (r: CodeBlock)
    requires
        valid(field.ty),
    ensures
        (
            final(defs).deep_view(),
            r.deep_view(),
        ) == getter_body(union_class@, *field, old(defs).deep_view()),
    decreases field, 1nat,
{
    let mut code = Code::new(0);
    emit_storage_read(union_class, &mut code);
    let outcome = emit_ty_from_union_bytes(
        &field.ty,
        &UnionStorage::at_start("_bytes", "_objects"),
        0,
        &mut code,
        defs,
    );
    match outcome {
        Ok(value) => {
            code.push(return_value(&value));
            let list = code.into_instructions();
            simple_body(&list)
        },
        Err(error) => {
            unsupported_union_body(error.as_str())
        },
    }
}

/// The method that reads a field of a union.
pub open spec fn getter_method(
    union_class: Text,
    field: Field,
    defs: DefinitionsModel,
) -> (DefinitionsModel, FunctionModel)
    decreases field, 2nat, 0nat,
{
    if has_value(lowered(field.ty)) {
        let (defs, body) = getter_body(union_class, field, defs);
        (defs, getter_with(union_class, field, lowered(field.ty), body))
    } else {
        let code = empty_code(0);
        let code = emit(code, returns_nothing());
        let list = code.instructions;
        (defs, getter_with(union_class, field, Type::Void, single_block(list)))
    }
}

/// Makes the method that reads a field of a union.
#[verifier::rlimit(60)]
pub fn union_getter_function(
    union_class: &str,
    field: &Field,
    defs: &mut Definitions,
) -> (r: Function)
    requires
        valid(field.ty),
    ensures
        (
            final(defs).deep_view(),
            r.deep_view(),
        ) == getter_method(union_class@, *field, old(defs).deep_view()),
    decreases field, 2nat,
{
    if Type::has_jvm_value(&RustType::jvm_type(&field.ty)) {
        let body = union_getter_body(union_class, field, defs);
        make_getter(union_class, field, &RustType::jvm_type(&field.ty), body)
    } else {
        let mut code = Code::new(0);
        code.push(return_nothing());
        let list = code.into_instructions();
        make_getter(union_class, field, &Type::Void, simple_body(&list))
    }
}

/// The body that writes a field of a union.
pub open spec fn setter_body(
    union_class: Text,
    field: Field,
    defs: DefinitionsModel,
) -> (DefinitionsModel, CodeBlockModel)
    decreases field, 1nat, 0nat,
{
    let code = empty_code(0);
    let code = storage_read(union_class, code);
    let (code, defs, outcome) = stored(
        field.ty,
        variable("_2"@, lowered(field.ty)),
        storage_at_start("_bytes"@, "_objects"@),
        0,
        code,
        defs,
    );
    match outcome {
        Ok(_) => {
            let code = emit(code, returns_nothing());
            let list = code.instructions;
            (defs, single_block(list))
        },
        Err(error) => {
            (defs, unsupported_body(error))
        },
    }
}

/// Makes the body that writes a field of a union.
#[verifier::rlimit(60)]
pub fn union_setter_body(
    union_class: &str,
    field: &Field,
    defs: &mut Definitions,
) -> (r: CodeBlock)
    requires
        valid(field.ty),
    ensures
        (
            final(defs).deep_view(),
            r.deep_view(),
        ) == setter_body(union_class@, *field, old(defs).deep_view()),
    decreases field, 1nat,
{
    let mut code = Code::new(0);
    emit_storage_read(union_class, &mut code);
    let outcome = emit_ty_to_union_bytes(
        &field.ty,
        &operand_var("_2", &RustType::jvm_type(&field.ty)),
        &UnionStorage::at_start("_bytes", "_objects"),
        0,
        &mut code,
        defs,
    );
    match outcome {
        Ok(_) => {
            code.push(return_nothing());
            let list = code.into_instructions();
            simple_body(&list)
        },
        Err(error) => {
            unsupported_union_body(error.as_str())
        },
    }
}

/// The method that writes a field of a union.
pub open spec fn setter_method(
    union_class: Text,
    field: Field,
    defs: DefinitionsModel,
) -> (DefinitionsModel, FunctionModel)
    decreases field, 2nat, 0nat,
{
    let (defs, body) = setter_body(union_class, field, defs);
    (defs, setter_with(union_class, field, body))
}

/// Makes the method that writes a field of a union.
#[verifier::rlimit(60)]
pub fn union_setter_function(
    union_class: &str,
    field: &Field,
    defs: &mut Definitions,
) -> (r: Function)
    requires
        valid(field.ty),
    ensures
        (
            final(defs).deep_view(),
            r.deep_view(),
        ) == setter_method(union_class@, *field, old(defs).deep_view()),
    decreases field, 2nat,
{
    let body = union_setter_body(union_class, field, defs);
    make_setter(union_class, field, body)
}

/// The three methods of a field.
pub open spec fn field_methods(
    field: Field,
    union_class: Text,
    union_size: usize,
    objects_size: usize,
    defs: DefinitionsModel,
    methods: Map<Text, DataTypeMethodModel>,
) -> (DefinitionsModel, Map<Text, DataTypeMethodModel>)
    decreases field, 3nat, 0nat,
{
    let (defs, maker) = from_method(union_class, union_size, objects_size, field, defs);
    let methods = function_put(("from_"@ + field.name@), maker, methods);
    let (defs, getter) = getter_method(union_class, field, defs);
    let methods = function_put(("get_"@ + field.name@), getter, methods);
    let (defs, setter) = setter_method(union_class, field, defs);
    let methods = function_put(("set_"@ + field.name@), setter, methods);
    (defs, methods)
}

/// Makes the three methods of a field.
#[verifier::rlimit(60)]
pub fn put_field_methods(
    field: &Field,
    union_class: &str,
    union_size: usize,
    objects_size: usize,
    defs: &mut Definitions,
    methods: &mut NameMap<DataTypeMethod>,
)
    requires
        valid(field.ty),
    ensures
        (final(defs).deep_view(), final(methods).deep_view()) == field_methods(
            *field,
            union_class@,
            union_size,
            objects_size,
            old(defs).deep_view(),
            old(methods).deep_view(),
        ),
    decreases field, 3nat,
{
    let maker = union_from_function(union_class, union_size, objects_size, field, defs);
    put_function(union_from_method_name(field.name.as_str()).as_str(), maker, methods);
    let getter = union_getter_function(union_class, field, defs);
    put_function(union_getter_method_name(field.name.as_str()).as_str(), getter, methods);
    let setter = union_setter_function(union_class, field, defs);
    put_function(union_setter_method_name(field.name.as_str()).as_str(), setter, methods);
}

/// The fields of the class of a union.
pub open spec fn union_fields() -> Seq<(Text, TypeModel)> {
    params2(UNION_BYTES_FIELD@, byte_array(), UNION_OBJECTS_FIELD@, object_array())
}

/// The fields of the class of a union.
pub fn make_union_fields() -> (r: Vec<(String, Type)>)
    ensures
        r.deep_view() == union_fields(),
{
    make_params2(UNION_BYTES_FIELD, &byte_array_type(), UNION_OBJECTS_FIELD, &object_array_type())
}

/// The size of a union; one that is not known counts as one byte.
pub open spec fn union_size(ty: RustType) -> usize {
    match ty.size {
        Ok(size) => size,
        Err(_) => 1,
    }
}

/// The size of a union; one that is not known counts as one byte.
pub fn union_size_of(ty: &RustType) -> (r: usize)
    ensures
        r == union_size(*ty),
{
    match &ty.size {
        Ok(size) => *size,
        Err(_) => 1,
    }
}

/// A size as a number of the JVM.
pub open spec fn jvm_number(size: usize) -> i32 {
    size as i32
}

/// A size as a number of the JVM.
pub fn jvm_number_of(size: usize) -> (r: i32)
    ensures
        r == jvm_number(size),
{
    size as i32
}

} // verus!
