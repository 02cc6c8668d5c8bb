//! Class files with their constants numbered.
use crate::constant_pool::{
    ConstantPool, MAX_CONSTANTS, PoolEntryModel, Reference, class_added, extends,
    matching_numbers_stay, number_ops, numbers_match, ops_added, reference_at, references_stay,
    text_added,
};
use crate::error::Error;
use crate::jvm_ops::{
    ClassFile, ClassFileModel, InnerClass, InnerClassModel, JvmField, JvmFieldModel, JvmMethod,
    JvmMethodModel, MethodBody, MethodBodyModel, OpModel, no_ops,
};
use crate::oomir::Text;
use vstd::prelude::*;
use vstd::string::*;

verus! {

/// A field whose name and descriptor are numbers.
#[derive(Debug)]
pub struct NumberedField {
    pub name: u16,
    pub descriptor: u16,
}

/// A method whose name and descriptor are numbers, with the numbers that its instructions need.
#[derive(Debug)]
pub struct NumberedMethod {
    pub name: u16,
    pub descriptor: u16,
    pub ops: Vec<Option<u16>>,
}

/// A member class whose names are numbers.
#[derive(Debug)]
pub struct NumberedMember {
    pub class_name: u16,
    pub outer_class: u16,
    /// The number of the name inside the outer class, if it has one.
    pub name: Option<u16>,
    pub access: u16,
}

/// The numbers of the parts of a class file, and the constants that they stand for.
pub struct NumberedClass {
    pub pool: ConstantPool,
    pub this_class: u16,
    pub super_class: u16,
    pub interfaces: Vec<u16>,
    pub fields: Vec<NumberedField>,
    pub methods: Vec<NumberedMethod>,
    pub inner_classes: Vec<NumberedMember>,
    pub source_file: Option<u16>,
}

/// Whether a number is that of a text.
pub open spec fn is_text(pool: Seq<PoolEntryModel>, number: u16, text: Text) -> bool {
    reference_at(pool, number) == Some(Reference::Utf8(text))
}

/// Whether a number is that of a class.
pub open spec fn is_class_number(pool: Seq<PoolEntryModel>, number: u16, name: Text) -> bool {
    reference_at(pool, number) == Some(Reference::Class(name))
}

/// Whether numbers are those of classes, one for one.
pub open spec fn are_classes(
    pool: Seq<PoolEntryModel>,
    numbers: Seq<u16>,
    names: Seq<Text>,
) -> bool {
    &&& numbers.len() == names.len()
    &&& forall|i: int|
        0 <= i < names.len() ==> is_class_number(pool, #[trigger] numbers[i], names[i])
}

/// Whether numbers are those of a field.
pub open spec fn is_field(
    pool: Seq<PoolEntryModel>,
    numbered: NumberedField,
    field: JvmFieldModel,
) -> bool {
    is_text(pool, numbered.name, field.name) && is_text(
        pool,
        numbered.descriptor,
        field.descriptor,
    )
}

/// Whether numbers are those of fields, one for one.
pub open spec fn are_fields(
    pool: Seq<PoolEntryModel>,
    numbered: Seq<NumberedField>,
    fields: Seq<JvmFieldModel>,
) -> bool {
    &&& numbered.len() == fields.len()
    &&& forall|i: int| 0 <= i < fields.len() ==> is_field(pool, #[trigger] numbered[i], fields[i])
}

/// The instructions of a method; a method that stands for a lowered function has none of its own.
pub open spec fn own_ops(body: MethodBodyModel) -> Seq<OpModel> {
    match body {
        MethodBodyModel::Ops { ops, .. } => ops,
        _ => no_ops(),
    }
}

/// Whether numbers are those of a method.
pub open spec fn is_method(
    pool: Seq<PoolEntryModel>,
    numbered: NumberedMethod,
    method: JvmMethodModel,
) -> bool {
    &&& is_text(pool, numbered.name, method.name)
    &&& is_text(pool, numbered.descriptor, method.descriptor)
    &&& numbers_match(pool, own_ops(method.body), numbered.ops@)
}

/// Whether numbers are those of methods, one for one.
pub open spec fn are_methods(
    pool: Seq<PoolEntryModel>,
    numbered: Seq<NumberedMethod>,
    methods: Seq<JvmMethodModel>,
) -> bool {
    &&& numbered.len() == methods.len()
    &&& forall|i: int|
        0 <= i < methods.len() ==> is_method(pool, #[trigger] numbered[i], methods[i])
}

/// Whether a number is that of a text, where there is a text.
pub open spec fn is_text_if_any(
    pool: Seq<PoolEntryModel>,
    number: Option<u16>,
    text: Option<Text>,
) -> bool {
    match text {
        Some(text) => number is Some && is_text(pool, number->0, text),
        None => number is None,
    }
}

/// Whether numbers are those of a member class.
pub open spec fn is_member(
    pool: Seq<PoolEntryModel>,
    numbered: NumberedMember,
    member: InnerClassModel,
) -> bool {
    &&& is_class_number(pool, numbered.class_name, member.class_name)
    &&& is_class_number(pool, numbered.outer_class, member.outer_class)
    &&& is_text_if_any(pool, numbered.name, member.name)
    &&& numbered.access == member.access
}

/// Whether numbers are those of member classes, one for one.
pub open spec fn are_members(
    pool: Seq<PoolEntryModel>,
    numbered: Seq<NumberedMember>,
    members: Seq<InnerClassModel>,
) -> bool {
    &&& numbered.len() == members.len()
    &&& forall|i: int|
        0 <= i < members.len() ==> is_member(pool, #[trigger] numbered[i], members[i])
}

/// Whether the numbers of a class stand for what its class file says.
pub open spec fn stands_for(numbered: NumberedClass, file: ClassFileModel) -> bool {
    let pool = numbered.pool.constants();
    &&& pool.no_duplicates()
    &&& pool.len() <= MAX_CONSTANTS
    &&& is_class_number(pool, numbered.this_class, file.this_class)
    &&& is_class_number(pool, numbered.super_class, file.super_class)
    &&& are_classes(pool, numbered.interfaces@, file.interfaces)
    &&& are_fields(pool, numbered.fields@, file.fields)
    &&& are_methods(pool, numbered.methods@, file.methods)
    &&& are_members(pool, numbered.inner_classes@, file.inner_classes)
    &&& is_text_if_any(pool, numbered.source_file, file.source_file)
}

/// The constants that the first methods need at most.
pub open spec fn methods_need(methods: Seq<JvmMethodModel>, n: nat) -> nat
    decreases n,
{
    if n == 0 || n > methods.len() {
        0
    } else {
        methods_need(methods, (n - 1) as nat) + 2 + 6 * own_ops(methods[n - 1].body).len()
    }
}

/// More methods need more constants.
pub proof fn need_grows(methods: Seq<JvmMethodModel>, n: nat, m: nat)
    requires
        n <= m <= methods.len(),
    ensures
        methods_need(methods, n) <= methods_need(methods, m),
    decreases m,
{
    if n < m {
        need_grows(methods, n, (m - 1) as nat);
    }
}

/// The constants that a class file needs at most.
pub open spec fn constants_needed(file: ClassFileModel) -> nat {
    5 + 2 * file.interfaces.len() + 2 * file.fields.len() + methods_need(
        file.methods,
        file.methods.len(),
    ) + 5 * file.inner_classes.len()
}

/// A pool with the first classes, and whether there was room for all of them.
pub open spec fn classes_added(names: Seq<Text>, n: nat, pool: Seq<PoolEntryModel>) -> (
    Seq<PoolEntryModel>,
    bool,
)
    decreases n,
{
    if n == 0 || n > names.len() {
        (pool, true)
    } else {
        let (pool, has_room) = classes_added(names, (n - 1) as nat, pool);
        if has_room {
            let (pool, outcome) = class_added(names[n - 1], pool);
            (pool, outcome is Ok)
        } else {
            (pool, false)
        }
    }
}

proof fn full_for_more_classes(names: Seq<Text>, n: nat, m: nat, pool: Seq<PoolEntryModel>)
    requires
        n <= m <= names.len(),
        !classes_added(names, n, pool).1,
    ensures
        classes_added(names, m, pool) == classes_added(names, n, pool),
    decreases m,
{
    if n < m {
        full_for_more_classes(names, n, (m - 1) as nat, pool);
    }
}

/// A pool with two texts, and whether there was room for both.
pub open spec fn texts_added(a: Text, b: Text, pool: Seq<PoolEntryModel>) -> (
    Seq<PoolEntryModel>,
    bool,
) {
    let (pool, outcome) = text_added(a, pool);
    if outcome is Ok {
        let (pool, outcome) = text_added(b, pool);
        (pool, outcome is Ok)
    } else {
        (pool, false)
    }
}

/// A pool with the first fields, and whether there was room for all of them.
pub open spec fn fields_added(fields: Seq<JvmFieldModel>, n: nat, pool: Seq<PoolEntryModel>) -> (
    Seq<PoolEntryModel>,
    bool,
)
    decreases n,
{
    if n == 0 || n > fields.len() {
        (pool, true)
    } else {
        let (pool, has_room) = fields_added(fields, (n - 1) as nat, pool);
        if has_room {
            texts_added(fields[n - 1].name, fields[n - 1].descriptor, pool)
        } else {
            (pool, false)
        }
    }
}

proof fn full_for_more_fields(fields: Seq<JvmFieldModel>, n: nat, m: nat, pool: Seq<PoolEntryModel>)
    requires
        n <= m <= fields.len(),
        !fields_added(fields, n, pool).1,
    ensures
        fields_added(fields, m, pool) == fields_added(fields, n, pool),
    decreases m,
{
    if n < m {
        full_for_more_fields(fields, n, (m - 1) as nat, pool);
    }
}

/// A pool with a method, and whether there was room for it.
pub open spec fn one_method_added(method: JvmMethodModel, pool: Seq<PoolEntryModel>) -> (
    Seq<PoolEntryModel>,
    bool,
) {
    let (pool, has_room) = texts_added(method.name, method.descriptor, pool);
    if has_room {
        ops_added(own_ops(method.body), own_ops(method.body).len(), pool)
    } else {
        (pool, false)
    }
}

/// A pool with the first methods, and whether there was room for all of them.
pub open spec fn all_methods_added(
    methods: Seq<JvmMethodModel>,
    n: nat,
    pool: Seq<PoolEntryModel>,
) -> (Seq<PoolEntryModel>, bool)
    decreases n,
{
    if n == 0 || n > methods.len() {
        (pool, true)
    } else {
        let (pool, has_room) = all_methods_added(methods, (n - 1) as nat, pool);
        if has_room {
            one_method_added(methods[n - 1], pool)
        } else {
            (pool, false)
        }
    }
}

proof fn full_for_more_methods(
    methods: Seq<JvmMethodModel>,
    n: nat,
    m: nat,
    pool: Seq<PoolEntryModel>,
)
    requires
        n <= m <= methods.len(),
        !all_methods_added(methods, n, pool).1,
    ensures
        all_methods_added(methods, m, pool) == all_methods_added(methods, n, pool),
    decreases m,
{
    if n < m {
        full_for_more_methods(methods, n, (m - 1) as nat, pool);
    }
}

/// A pool with a text, where there is one, and whether there was room for it.
pub open spec fn text_added_if_any(text: Option<Text>, pool: Seq<PoolEntryModel>) -> (
    Seq<PoolEntryModel>,
    bool,
) {
    match text {
        Some(text) => {
            let (pool, outcome) = text_added(text, pool);
            (pool, outcome is Ok)
        },
        None => (pool, true),
    }
}

/// A pool with a member class, and whether there was room for it.
pub open spec fn one_member_added(member: InnerClassModel, pool: Seq<PoolEntryModel>) -> (
    Seq<PoolEntryModel>,
    bool,
) {
    let (pool, outcome) = class_added(member.class_name, pool);
    if outcome is Err {
        (pool, false)
    } else {
        let (pool, outcome) = class_added(member.outer_class, pool);
        if outcome is Err {
            (pool, false)
        } else {
            text_added_if_any(member.name, pool)
        }
    }
}

/// A pool with the first member classes, and whether there was room for all of them.
pub open spec fn members_added(
    members: Seq<InnerClassModel>,
    n: nat,
    pool: Seq<PoolEntryModel>,
) -> (Seq<PoolEntryModel>, bool)
    decreases n,
{
    if n == 0 || n > members.len() {
        (pool, true)
    } else {
        let (pool, has_room) = members_added(members, (n - 1) as nat, pool);
        if has_room {
            one_member_added(members[n - 1], pool)
        } else {
            (pool, false)
        }
    }
}

proof fn full_for_more_members(
    members: Seq<InnerClassModel>,
    n: nat,
    m: nat,
    pool: Seq<PoolEntryModel>,
)
    requires
        n <= m <= members.len(),
        !members_added(members, n, pool).1,
    ensures
        members_added(members, m, pool) == members_added(members, n, pool),
    decreases m,
{
    if n < m {
        full_for_more_members(members, n, (m - 1) as nat, pool);
    }
}

/// The constants of a class file in the order in which they are met, and whether all of them can be
/// numbered. The names of attributes are not among them.
pub open spec fn file_constants(file: ClassFileModel) -> (Seq<PoolEntryModel>, bool) {
    let (pool, outcome) = class_added(file.this_class, Seq::empty());
    if outcome is Err {
        (pool, false)
    } else {
        let (pool, outcome) = class_added(file.super_class, pool);
        if outcome is Err {
            (pool, false)
        } else {
            let (pool, has_room) = classes_added(file.interfaces, file.interfaces.len(), pool);
            if !has_room {
                (pool, false)
            } else {
                let (pool, has_room) = fields_added(file.fields, file.fields.len(), pool);
                if !has_room {
                    (pool, false)
                } else {
                    let (pool, has_room) = all_methods_added(
                        file.methods,
                        file.methods.len(),
                        pool,
                    );
                    if !has_room {
                        (pool, false)
                    } else {
                        let (pool, has_room) = members_added(
                            file.inner_classes,
                            file.inner_classes.len(),
                            pool,
                        );
                        if !has_room {
                            (pool, false)
                        } else {
                            text_added_if_any(file.source_file, pool)
                        }
                    }
                }
            }
        }
    }
}

fn number_classes(names: &Vec<String>, pool: &mut ConstantPool) -> (r: Result<Vec<u16>, Error>)
    ensures
        (final(pool).constants(), r is Ok) == classes_added(
            names.deep_view(),
            names@.len(),
            old(pool).constants(),
        ),
        extends(final(pool).constants(), old(pool).constants()),
        r matches Ok(numbers) ==> are_classes(
            final(pool).constants(),
            numbers@,
            names.deep_view(),
        ),
        final(pool).constants().len() <= old(pool).constants().len() + 2 * names@.len(),
        r matches Err(error) ==> error.deep_view() == Error::<Text>::ConstantPoolFull && old(
            pool,
        ).constants().len() + 2 * names@.len() > MAX_CONSTANTS,
{
    pool.verify_no_duplicate_constants();
    let ghost start = pool.constants();
    let ghost model = names.deep_view();
    let mut r: Vec<u16> = Vec::new();
    for i in 0..names.len()
        invariant
            start == old(pool).constants(),
            model == names.deep_view(),
            extends(pool.constants(), start),
            pool.constants().len() <= start.len() + 2 * i,
            (pool.constants(), true) == classes_added(model, i as nat, start),
            r@.len() == i,
            forall|k: int|
                0 <= k < i ==> is_class_number(pool.constants(), #[trigger] r@[k], model[k]),
    {
        assert(model[i as int] == names@[i as int]@);
        let ghost before = pool.constants();
        let number = match pool.add_class(names[i].as_str()) {
            Ok(number) => number,
            Err(error) => {
                proof {
                    assert(model.len() == names@.len());
                    full_for_more_classes(model, (i + 1) as nat, model.len(), start);
                }
                return Err(error);
            },
        };
        proof {
            assert forall|k: int| 0 <= k < i implies is_class_number(
                pool.constants(),
                #[trigger] r@[k],
                model[k],
            ) by {
                references_stay(pool.constants(), before, r@[k]);
            }
        }
        r.push(number);
    }
    Ok(r)
}

fn number_fields_of(fields: &Vec<JvmField>, pool: &mut ConstantPool) -> (r: Result<
    Vec<NumberedField>,
    Error,
>)
    ensures
        (final(pool).constants(), r is Ok) == fields_added(
            fields.deep_view(),
            fields@.len(),
            old(pool).constants(),
        ),
        extends(final(pool).constants(), old(pool).constants()),
        r matches Ok(numbered) ==> are_fields(
            final(pool).constants(),
            numbered@,
            fields.deep_view(),
        ),
        final(pool).constants().len() <= old(pool).constants().len() + 2 * fields@.len(),
        r matches Err(error) ==> error.deep_view() == Error::<Text>::ConstantPoolFull && old(
            pool,
        ).constants().len() + 2 * fields@.len() > MAX_CONSTANTS,
{
    pool.verify_no_duplicate_constants();
    let ghost start = pool.constants();
    let ghost model = fields.deep_view();
    let mut r: Vec<NumberedField> = Vec::new();
    for i in 0..fields.len()
        invariant
            start == old(pool).constants(),
            model == fields.deep_view(),
            extends(pool.constants(), start),
            pool.constants().len() <= start.len() + 2 * i,
            (pool.constants(), true) == fields_added(model, i as nat, start),
            r@.len() == i,
            forall|k: int| 0 <= k < i ==> is_field(pool.constants(), #[trigger] r@[k], model[k]),
    {
        assert(model[i as int] == fields@[i as int].deep_view());
        let ghost before = pool.constants();
        let name = match pool.add_utf8(fields[i].name.as_str()) {
            Ok(number) => number,
            Err(error) => {
                proof {
                    assert(model.len() == fields@.len());
                    full_for_more_fields(model, (i + 1) as nat, model.len(), start);
                }
                return Err(error);
            },
        };
        let ghost middle = pool.constants();
        let descriptor = match pool.add_utf8(fields[i].descriptor.as_str()) {
            Ok(number) => number,
            Err(error) => {
                proof {
                    assert(model.len() == fields@.len());
                    full_for_more_fields(model, (i + 1) as nat, model.len(), start);
                }
                return Err(error);
            },
        };
        proof {
            references_stay(pool.constants(), middle, name);
            assert forall|k: int| 0 <= k < i implies is_field(
                pool.constants(),
                #[trigger] r@[k],
                model[k],
            ) by {
                references_stay(pool.constants(), before, r@[k].name);
                references_stay(pool.constants(), before, r@[k].descriptor);
            }
        }
        r.push(NumberedField { name, descriptor });
    }
    Ok(r)
}

fn number_body(body: &MethodBody, pool: &mut ConstantPool) -> (r: Result<Vec<Option<u16>>, Error>)
    ensures
        (final(pool).constants(), r is Ok) == ops_added(
            own_ops(body.deep_view()),
            own_ops(body.deep_view()).len(),
            old(pool).constants(),
        ),
        extends(final(pool).constants(), old(pool).constants()),
        r matches Ok(numbers) ==> numbers_match(
            final(pool).constants(),
            own_ops(body.deep_view()),
            numbers@,
        ),
        final(pool).constants().len() <= old(pool).constants().len() + 6 * own_ops(body.deep_view()).len(),
        r matches Err(error) ==> error.deep_view() == Error::<Text>::ConstantPoolFull && old(
            pool,
        ).constants().len() + 6 * own_ops(body.deep_view()).len() > MAX_CONSTANTS,
{
    pool.verify_no_duplicate_constants();
    match body {
        MethodBody::Ops { ops, .. } => number_ops(ops, pool),
        _ => Ok(Vec::new()),
    }
}

fn number_methods_of(methods: &Vec<JvmMethod>, pool: &mut ConstantPool) -> (r: Result<
    Vec<NumberedMethod>,
    Error,
>)
    ensures
        (final(pool).constants(), r is Ok) == all_methods_added(
            methods.deep_view(),
            methods@.len(),
            old(pool).constants(),
        ),
        extends(final(pool).constants(), old(pool).constants()),
        r matches Ok(numbered) ==> are_methods(
            final(pool).constants(),
            numbered@,
            methods.deep_view(),
        ),
        final(pool).constants().len() <= old(pool).constants().len() + methods_need(
            methods.deep_view(),
            methods@.len(),
        ),
        r matches Err(error) ==> error.deep_view() == Error::<Text>::ConstantPoolFull && old(
            pool,
        ).constants().len() + methods_need(methods.deep_view(), methods@.len()) > MAX_CONSTANTS,
{
    pool.verify_no_duplicate_constants();
    let ghost start = pool.constants();
    let ghost model = methods.deep_view();
    assert(model.len() == methods@.len());
    let mut r: Vec<NumberedMethod> = Vec::new();
    for i in 0..methods.len()
        invariant
            start == old(pool).constants(),
            model == methods.deep_view(),
            extends(pool.constants(), start),
            model.len() == methods@.len(),
            pool.constants().len() <= start.len() + methods_need(model, i as nat),
            (pool.constants(), true) == all_methods_added(model, i as nat, start),
            r@.len() == i,
            forall|k: int| 0 <= k < i ==> is_method(pool.constants(), #[trigger] r@[k], model[k]),
    {
        assert(model[i as int] == methods@[i as int].deep_view());
        let ghost before = pool.constants();
        proof {
            need_grows(model, (i + 1) as nat, model.len());
        }
        let name = match pool.add_utf8(methods[i].name.as_str()) {
            Ok(number) => number,
            Err(error) => {
                proof {
                    full_for_more_methods(model, (i + 1) as nat, model.len(), start);
                }
                return Err(error);
            },
        };
        let ghost first = pool.constants();
        let descriptor = match pool.add_utf8(methods[i].descriptor.as_str()) {
            Ok(number) => number,
            Err(error) => {
                proof {
                    full_for_more_methods(model, (i + 1) as nat, model.len(), start);
                }
                return Err(error);
            },
        };
        let ghost second = pool.constants();
        let ops = match number_body(&methods[i].body, pool) {
            Ok(numbers) => numbers,
            Err(error) => {
                proof {
                    full_for_more_methods(model, (i + 1) as nat, model.len(), start);
                }
                return Err(error);
            },
        };
        proof {
            references_stay(second, first, name);
            references_stay(pool.constants(), second, name);
            references_stay(pool.constants(), second, descriptor);
            assert(extends(pool.constants(), before));
            assert forall|k: int| 0 <= k < i implies is_method(
                pool.constants(),
                #[trigger] r@[k],
                model[k],
            ) by {
                references_stay(pool.constants(), before, r@[k].name);
                references_stay(pool.constants(), before, r@[k].descriptor);
                matching_numbers_stay(
                    pool.constants(),
                    before,
                    own_ops(model[k].body),
                    r@[k].ops@,
                );
            }
        }
        r.push(NumberedMethod { name, descriptor, ops });
    }
    Ok(r)
}

fn number_text_if_any(text: &Option<String>, pool: &mut ConstantPool) -> (r: Result<
    Option<u16>,
    Error,
>)
    ensures
        (final(pool).constants(), r is Ok) == text_added_if_any(
            text.deep_view(),
            old(pool).constants(),
        ),
        extends(final(pool).constants(), old(pool).constants()),
        r matches Ok(number) ==> is_text_if_any(
            final(pool).constants(),
            number,
            text.deep_view(),
        ),
        final(pool).constants().len() <= old(pool).constants().len() + 1,
        r matches Err(error) ==> error.deep_view() == Error::<Text>::ConstantPoolFull && old(
            pool,
        ).constants().len() + 1 > MAX_CONSTANTS,
{
    pool.verify_no_duplicate_constants();
    match text {
        Some(text) => match pool.add_utf8(text.as_str()) {
            Ok(number) => Ok(Some(number)),
            Err(error) => Err(error),
        },
        None => Ok(None),
    }
}

fn number_member(member: &InnerClass, pool: &mut ConstantPool) -> (r: Result<NumberedMember, Error>)
    ensures
        (final(pool).constants(), r is Ok) == one_member_added(
            member.deep_view(),
            old(pool).constants(),
        ),
        extends(final(pool).constants(), old(pool).constants()),
        r matches Ok(numbered) ==> is_member(
            final(pool).constants(),
            numbered,
            member.deep_view(),
        ),
        final(pool).constants().len() <= old(pool).constants().len() + 5,
        r matches Err(error) ==> error.deep_view() == Error::<Text>::ConstantPoolFull && old(
            pool,
        ).constants().len() + 5 > MAX_CONSTANTS,
{
    let class_name = match pool.add_class(member.class_name.as_str()) {
        Ok(number) => number,
        Err(error) => return Err(error),
    };
    let ghost first = pool.constants();
    let outer_class = match pool.add_class(member.outer_class.as_str()) {
        Ok(number) => number,
        Err(error) => return Err(error),
    };
    let ghost second = pool.constants();
    let name = match number_text_if_any(&member.name, pool) {
        Ok(number) => number,
        Err(error) => return Err(error),
    };
    proof {
        references_stay(second, first, class_name);
        references_stay(pool.constants(), second, class_name);
        references_stay(pool.constants(), second, outer_class);
    }
    Ok(NumberedMember { class_name, outer_class, name, access: member.access })
}

proof fn members_stay(
    pool: Seq<PoolEntryModel>,
    before: Seq<PoolEntryModel>,
    numbered: NumberedMember,
    member: InnerClassModel,
)
    requires
        extends(pool, before),
        is_member(before, numbered, member),
    ensures
        is_member(pool, numbered, member),
{
    references_stay(pool, before, numbered.class_name);
    references_stay(pool, before, numbered.outer_class);
    if numbered.name is Some {
        references_stay(pool, before, numbered.name->0);
    }
}

fn number_members_of(members: &Vec<InnerClass>, pool: &mut ConstantPool) -> (r: Result<
    Vec<NumberedMember>,
    Error,
>)
    ensures
        (final(pool).constants(), r is Ok) == members_added(
            members.deep_view(),
            members@.len(),
            old(pool).constants(),
        ),
        extends(final(pool).constants(), old(pool).constants()),
        r matches Ok(numbered) ==> are_members(
            final(pool).constants(),
            numbered@,
            members.deep_view(),
        ),
        final(pool).constants().len() <= old(pool).constants().len() + 5 * members@.len(),
        r matches Err(error) ==> error.deep_view() == Error::<Text>::ConstantPoolFull && old(
            pool,
        ).constants().len() + 5 * members@.len() > MAX_CONSTANTS,
{
    pool.verify_no_duplicate_constants();
    let ghost start = pool.constants();
    let ghost model = members.deep_view();
    assert(model.len() == members@.len());
    let mut r: Vec<NumberedMember> = Vec::new();
    for i in 0..members.len()
        invariant
            start == old(pool).constants(),
            model == members.deep_view(),
            model.len() == members@.len(),
            extends(pool.constants(), start),
            pool.constants().len() <= start.len() + 5 * i,
            (pool.constants(), true) == members_added(model, i as nat, start),
            r@.len() == i,
            forall|k: int| 0 <= k < i ==> is_member(pool.constants(), #[trigger] r@[k], model[k]),
    {
        assert(model[i as int] == members@[i as int].deep_view());
        let ghost before = pool.constants();
        let numbered = match number_member(&members[i], pool) {
            Ok(numbered) => numbered,
            Err(error) => {
                proof {
                    full_for_more_members(model, (i + 1) as nat, model.len(), start);
                }
                return Err(error);
            },
        };
        proof {
            assert forall|k: int| 0 <= k < i implies is_member(
                pool.constants(),
                #[trigger] r@[k],
                model[k],
            ) by {
                members_stay(pool.constants(), before, r@[k], model[k]);
            }
        }
        r.push(numbered);
    }
    Ok(r)
}

/// Numbers the constants of a class file, if there are not more of them than can be numbered.
pub fn number_class(file: &ClassFile) -> (r: Result<NumberedClass, Error>)
    ensures
        r is Ok <==> file_constants(file.deep_view()).1,
        r matches Ok(numbered) ==> numbered.pool.constants() == file_constants(file.deep_view()).0,
        r matches Ok(numbered) ==> stands_for(numbered, file.deep_view()),
        r matches Err(error) ==> error.deep_view() == Error::<Text>::ConstantPoolFull,
        constants_needed(file.deep_view()) <= MAX_CONSTANTS ==> r is Ok,
{
    let mut pool = ConstantPool::new();
    assert(file.deep_view().interfaces.len() == file.interfaces@.len());
    assert(file.deep_view().fields.len() == file.fields@.len());
    assert(file.deep_view().methods.len() == file.methods@.len());
    assert(file.deep_view().inner_classes.len() == file.inner_classes@.len());
    let this_class = match pool.add_class(file.this_class.as_str()) {
        Ok(number) => number,
        Err(error) => return Err(error),
    };
    let ghost first = pool.constants();
    let super_class = match pool.add_class(file.super_class.as_str()) {
        Ok(number) => number,
        Err(error) => return Err(error),
    };
    let ghost second = pool.constants();
    let interfaces = match number_classes(&file.interfaces, &mut pool) {
        Ok(numbers) => numbers,
        Err(error) => return Err(error),
    };
    let ghost third = pool.constants();
    let fields = match number_fields_of(&file.fields, &mut pool) {
        Ok(numbered) => numbered,
        Err(error) => return Err(error),
    };
    let ghost fourth = pool.constants();
    let methods = match number_methods_of(&file.methods, &mut pool) {
        Ok(numbered) => numbered,
        Err(error) => return Err(error),
    };
    let ghost fifth = pool.constants();
    let inner_classes = match number_members_of(&file.inner_classes, &mut pool) {
        Ok(numbered) => numbered,
        Err(error) => return Err(error),
    };
    let ghost sixth = pool.constants();
    let source_file = match number_text_if_any(&file.source_file, &mut pool) {
        Ok(number) => number,
        Err(error) => return Err(error),
    };
    pool.verify_no_duplicate_constants();
    proof {
        let last = pool.constants();
        let model = file.deep_view();
        assert(extends(last, fifth));
        assert(extends(last, fourth));
        assert(extends(last, third));
        assert(extends(last, second));
        references_stay(second, first, this_class);
        references_stay(last, second, this_class);
        references_stay(last, second, super_class);
        assert forall|i: int| 0 <= i < interfaces@.len() implies is_class_number(
            last,
            #[trigger] interfaces@[i],
            model.interfaces[i],
        ) by {
            references_stay(last, third, interfaces@[i]);
        }
        assert forall|i: int| 0 <= i < fields@.len() implies is_field(
            last,
            #[trigger] fields@[i],
            model.fields[i],
        ) by {
            references_stay(last, fourth, fields@[i].name);
            references_stay(last, fourth, fields@[i].descriptor);
        }
        assert forall|i: int| 0 <= i < methods@.len() implies is_method(
            last,
            #[trigger] methods@[i],
            model.methods[i],
        ) by {
            references_stay(last, fifth, methods@[i].name);
            references_stay(last, fifth, methods@[i].descriptor);
            matching_numbers_stay(last, fifth, own_ops(model.methods[i].body), methods@[i].ops@);
        }
        assert forall|i: int| 0 <= i < inner_classes@.len() implies is_member(
            last,
            #[trigger] inner_classes@[i],
            model.inner_classes[i],
        ) by {
            members_stay(last, sixth, inner_classes@[i], model.inner_classes[i]);
        }
    }
    Ok(
        NumberedClass {
            pool,
            this_class,
            super_class,
            interfaces,
            fields,
            methods,
            inner_classes,
            source_file,
        },
    )
}

} // verus!
