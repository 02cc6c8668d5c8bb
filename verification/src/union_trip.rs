//! Fields of unions: what is written to one is read from it, and from others by its bytes.
use crate::code::{
    DefinitionsModel, byte_array, class, emit, empty_code, i32_value, makes_array, makes_object,
    object_array, reads_field, returns_nothing, returns_value, typed2, variable,
};
use crate::codec::{UNION_BYTES_FIELD, UNION_OBJECTS_FIELD};
use crate::enum_trip::short_names_are_settled;
use crate::execution::{Machine, Value, executed, full_value, narrowed};
use crate::load::loaded;
use crate::oomir::{CodeBlockModel, InstructionModel, Text, Type};
use crate::round_trip::{low_bytes, number_at};
use crate::rust_type::{Field, lowered};
use crate::scalar_trip::{is_plain_number, number_is_loaded};
use crate::store::stored;
use crate::union_class::{from_body, getter_body, jvm_number, setter_body, storage_read};
use crate::union_storage::{makes_objects, storage_at_start};
use crate::value_bytes::{
    bytes_of, fits, image, image_is_local, image_shows_the_value, is_plain, shows,
};
use crate::value_trip::{temps_needed, value_is_loaded, value_is_stored};
use vstd::prelude::*;
use vstd::string::*;

verus! {

/// The instructions of the only block of a body.
pub open spec fn only_list(body: CodeBlockModel) -> Seq<InstructionModel> {
    body.basic_blocks[body.entry].instructions
}

/// Whether a list begins with two instructions, ends with another one and has more between them or
/// not.
pub open spec fn runs_from_to(
    list: Seq<InstructionModel>,
    first: InstructionModel,
    second: InstructionModel,
    last: InstructionModel,
) -> bool {
    &&& list.len() >= 3
    &&& list[0] == first
    &&& list[1] == second
    &&& list.last() == last
}

/// Whether the fields of a union are fetched first: its bytes into one local, and its objects into
/// another.
pub open spec fn fetches_storage(
    list: Seq<InstructionModel>,
    union_class: Text,
    last: InstructionModel,
) -> bool {
    let union = variable("_1"@, class(union_class));
    runs_from_to(
        list,
        reads_field("_bytes"@, union, UNION_BYTES_FIELD@, byte_array(), union_class),
        reads_field("_objects"@, union, UNION_OBJECTS_FIELD@, object_array(), union_class),
        last,
    )
}

/// Writing a field of a union fetches the storage of the union and puts the bytes of the value at
/// its start; the other bytes stay as they are.
pub proof fn field_is_written(
    union_class: Text,
    field: Field,
    value: Value,
    defs: DefinitionsModel,
    m: Machine,
) -> (n: Machine)
    requires
        is_plain(field.ty, defs, m.classes),
        fits(field.ty, value),
        full_value(m, variable("_2"@, lowered(field.ty))) == Some(value),
        m.arrays.contains_key("_bytes"@),
        bytes_of(field.ty) <= m.arrays["_bytes"@].len() <= i32::MAX,
        temps_needed(field.ty) <= usize::MAX,
    ensures
        ({
            let (defs1, body) = setter_body(union_class, field, defs);
            let list = only_list(body);
            let bytes = m.arrays["_bytes"@];
            &&& defs1 == defs
            &&& fetches_storage(list, union_class, returns_nothing())
            &&& executed(m, list.drop_last(), 2) == Some(n)
            &&& n.arrays == m.arrays.insert("_bytes"@, image(field.ty, value, bytes, 0))
            &&& forall|k: int|
                bytes_of(field.ty) <= k < bytes.len() ==> #[trigger] n.arrays["_bytes"@][k]
                    == bytes[k]
        }),
{
    reveal(storage_read);
    reveal_strlit("_2");
    short_names_are_settled("_2"@, 0);
    let code = storage_read(union_class, empty_code(0));
    let storage = storage_at_start("_bytes"@, "_objects"@);
    let n = value_is_stored(
        field.ty,
        value,
        variable("_2"@, lowered(field.ty)),
        storage,
        0,
        code,
        defs,
        2,
        m,
        m,
        0,
    );
    image_is_local(field.ty, value, m.arrays["_bytes"@], 0, defs, m.classes);
    let after = stored(
        field.ty,
        variable("_2"@, lowered(field.ty)),
        storage,
        0,
        code,
        defs,
    ).0.instructions;
    let list = after.push(returns_nothing());
    assert(only_list(setter_body(union_class, field, defs).1) == list);
    assert(list.drop_last() =~= after);
    assert(code.instructions[0] == after[0] && code.instructions[1] == after[1]);
    n
}

/// Reading a field of a union fetches the storage of the union and gives the value that its first
/// bytes show.
#[verifier::rlimit(60)]
pub proof fn field_is_read(
    union_class: Text,
    field: Field,
    value: Value,
    defs: DefinitionsModel,
    m: Machine,
) -> (n: Machine)
    requires
        is_plain(field.ty, defs, m.classes),
        fits(field.ty, value),
        m.arrays.contains_key("_bytes"@),
        bytes_of(field.ty) <= m.arrays["_bytes"@].len() <= i32::MAX,
        shows(field.ty, value, m.arrays["_bytes"@], 0),
        temps_needed(field.ty) <= usize::MAX,
    ensures
        ({
            let (defs1, body) = getter_body(union_class, field, defs);
            let list = only_list(body);
            &&& defs1 == defs
            &&& fetches_storage(list, union_class, list.last())
            &&& executed(m, list.drop_last(), 2) == Some(n)
            &&& list.last() matches InstructionModel::Return { operand: Some(result) }
            &&& full_value(n, result) == Some(value)
            &&& n.arrays == m.arrays
        }),
{
    reveal(storage_read);
    let code = storage_read(union_class, empty_code(0));
    let storage = storage_at_start("_bytes"@, "_objects"@);
    let n = value_is_loaded(field.ty, value, storage, 0, code, defs, 2, m, m, 0);
    let loading = loaded(field.ty, storage, 0, code, defs);
    let after = loading.0.instructions;
    let list = after.push(returns_value(loading.2->Ok_0));
    assert(only_list(getter_body(union_class, field, defs).1) == list);
    assert(list.drop_last() =~= after);
    assert(code.instructions[0] == after[0] && code.instructions[1] == after[1]);
    n
}

/// What was written to a field of a union is read from the field.
pub proof fn written_field_is_read(
    union_class: Text,
    field: Field,
    value: Value,
    defs: DefinitionsModel,
    m: Machine,
    r: Machine,
) -> (n: Machine)
    requires
        is_plain(field.ty, defs, m.classes),
        fits(field.ty, value),
        full_value(m, variable("_2"@, lowered(field.ty))) == Some(value),
        m.arrays.contains_key("_bytes"@),
        bytes_of(field.ty) <= m.arrays["_bytes"@].len() <= i32::MAX,
        temps_needed(field.ty) <= usize::MAX,
        r.classes == m.classes,
        executed(m, only_list(setter_body(union_class, field, defs).1).drop_last(), 2) matches Some(
            written,
        ) && r.arrays.contains_key("_bytes"@) && r.arrays["_bytes"@] == written.arrays["_bytes"@],
    ensures
        ({
            let list = only_list(getter_body(union_class, field, defs).1);
            &&& executed(r, list.drop_last(), 2) == Some(n)
            &&& list.last() matches InstructionModel::Return { operand: Some(result) }
            &&& full_value(n, result) == Some(value)
        }),
{
    let written = field_is_written(union_class, field, value, defs, m);
    image_shows_the_value(field.ty, value, m.arrays["_bytes"@], 0, defs, m.classes);
    image_is_local(field.ty, value, m.arrays["_bytes"@], 0, defs, m.classes);
    field_is_read(union_class, field, value, defs, r)
}

/// A number of some bytes has no more bits than these bytes.
proof fn number_has_its_bytes_only(bytes: Seq<u8>, at: int, size: nat)
    requires
        size <= 8,
    ensures
        low_bytes(number_at(bytes, at, size), size as int) == number_at(bytes, at, size),
    decreases size,
{
    if size == 0 {
        assert(0u64 & (((1u64 << 0u64) - 1) as u64) == 0) by (bit_vector);
    } else if size < 8 {
        number_has_its_bytes_only(bytes, at, (size - 1) as nat);
        let x = number_at(bytes, at, (size - 1) as nat);
        let y = bytes[at + size - 1] as u64;
        let s: u64 = (8 * (size - 1)) as u64;
        let t: u64 = (8 * size) as u64;
        assert(s <= 48 && t == s + 8 && y < 256 && x & (((1u64 << s) - 1) as u64) == x ==> (x | (y
            << s)) & (((1u64 << t) - 1) as u64) == (x | (y << s))) by (bit_vector);
    }
}

/// A field of a union that is a number is read as the number that the first bytes are, whichever
/// field they were written through.
pub proof fn number_field_is_read(
    union_class: Text,
    field: Field,
    defs: DefinitionsModel,
    r: Machine,
) -> (n: Machine)
    requires
        is_plain_number(field.ty),
        r.arrays.contains_key("_bytes"@),
        bytes_of(field.ty) <= r.arrays["_bytes"@].len() <= i32::MAX,
    ensures
        ({
            let (defs1, body) = getter_body(union_class, field, defs);
            let list = only_list(body);
            let bits = narrowed(
                lowered(field.ty),
                number_at(r.arrays["_bytes"@], 0, bytes_of(field.ty) as nat),
            );
            &&& defs1 == defs
            &&& fetches_storage(list, union_class, list.last())
            &&& executed(r, list.drop_last(), 2) == Some(n)
            &&& list.last() matches InstructionModel::Return { operand: Some(result) }
            &&& full_value(n, result) == Some(Value::Number { bits })
            &&& n.arrays == r.arrays
        }),
{
    reveal(storage_read);
    let code = storage_read(union_class, empty_code(0));
    let storage = storage_at_start("_bytes"@, "_objects"@);
    let size = bytes_of(field.ty);
    let x = number_at(r.arrays["_bytes"@], 0, size as nat);
    number_has_its_bytes_only(r.arrays["_bytes"@], 0, size as nat);
    reveal_with_fuel(lowered, 2);
    let n = number_is_loaded(field.ty, storage, 0, code, defs, 2, r, r, 0, x);
    let loading = loaded(field.ty, storage, 0, code, defs);
    let after = loading.0.instructions;
    let list = after.push(returns_value(loading.2->Ok_0));
    assert(only_list(getter_body(union_class, field, defs).1) == list);
    assert(list.drop_last() =~= after);
    assert(code.instructions[0] == after[0] && code.instructions[1] == after[1]);
    n
}

/// Making a union from a field puts the bytes of the value at the start of fresh storage, and all
/// other bytes are zero.
pub proof fn union_is_made(
    union_class: Text,
    union_size: usize,
    objects: usize,
    field: Field,
    value: Value,
    defs: DefinitionsModel,
    m: Machine,
) -> (n: Machine)
    requires
        is_plain(field.ty, defs, m.classes),
        fits(field.ty, value),
        full_value(m, variable("_1"@, lowered(field.ty))) == Some(value),
        m.arrays.contains_key("_bytes"@),
        m.arrays["_bytes"@] == Seq::new(union_size as nat, |i: int| 0u8),
        bytes_of(field.ty) <= union_size <= i32::MAX,
        temps_needed(field.ty) <= usize::MAX,
    ensures
        ({
            let (defs1, body) = from_body(union_class, union_size, objects, field, defs);
            let list = only_list(body);
            let made = makes_object(
                "_ret"@,
                union_class,
                typed2(
                    variable("_bytes"@, byte_array()),
                    byte_array(),
                    variable("_objects"@, object_array()),
                    object_array(),
                ),
            );
            &&& defs1 == defs
            &&& runs_from_to(
                list,
                makes_array("_bytes"@, Type::I8, i32_value(union_size as i32)),
                makes_objects("_objects"@, objects),
                returns_value(variable("_ret"@, class(union_class))),
            )
            &&& list.drop_last().last() == made
            &&& executed(m, list.drop_last().drop_last(), 2) == Some(n)
            &&& n.arrays["_bytes"@] == image(field.ty, value, m.arrays["_bytes"@], 0)
        }),
{
    reveal_strlit("_1");
    short_names_are_settled("_1"@, 0);
    let code = emit(
        emit(
            empty_code(0),
            makes_array("_bytes"@, Type::I8, i32_value(jvm_number(union_size))),
        ),
        makes_objects("_objects"@, objects),
    );
    let storage = storage_at_start("_bytes"@, "_objects"@);
    let source = variable("_1"@, lowered(field.ty));
    let n = value_is_stored(field.ty, value, source, storage, 0, code, defs, 2, m, m, 0);
    let after = stored(field.ty, source, storage, 0, code, defs).0.instructions;
    let made = makes_object(
        "_ret"@,
        union_class,
        typed2(
            variable("_bytes"@, byte_array()),
            byte_array(),
            variable("_objects"@, object_array()),
            object_array(),
        ),
    );
    let list = after.push(made).push(returns_value(variable("_ret"@, class(union_class))));
    assert(only_list(from_body(union_class, union_size, objects, field, defs).1) == list);
    assert(list.drop_last() =~= after.push(made));
    assert(list.drop_last().drop_last() =~= after);
    assert(code.instructions[0] == after[0] && code.instructions[1] == after[1]);
    n
}

} // verus!
