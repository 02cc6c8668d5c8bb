//! Values as bytes: where the numbers of a value stand, and that they can be read back.
use crate::code::DefinitionsModel;
use crate::codec::is_laid_out_struct;
use crate::execution::{Value, is_of};
use crate::layout::{SlotModel, SlotNames, slots_of_fields, valued_before};
use crate::lowering::{closure_parts_defined, defined_fields, struct_parts_defined};
use crate::oomir::{Text, has_value};
use crate::round_trip::{low_bytes, number_at, number_is_put_together, with_number};
use crate::rust_type::{Field, RustType, TypeKind, lowered, size_of};
use crate::scalar_trip::{is_plain_number, number_bytes};
use vstd::prelude::*;

verus! {

/// The size of a type in bytes.
pub open spec fn bytes_of(ty: RustType) -> usize {
    size_of(ty)->Ok_0
}

/// Whether a part of an aggregate has a JVM value.
pub open spec fn is_valued(field: Field) -> bool {
    has_value(lowered(field.ty))
}

/// Whether two parts of an aggregate share no bytes.
pub open spec fn are_apart(a: Field, b: Field) -> bool {
    a.offset + bytes_of(a.ty) <= b.offset || b.offset + bytes_of(b.ty) <= a.offset
}

/// Whether the parts of an aggregate that have JVM values stand in the fields of a class, in their
/// order.
pub open spec fn slots_fit(
    slots: Seq<Option<SlotModel>>,
    class_name: Text,
    fields: Seq<Field>,
    classes: Map<Text, Seq<Text>>,
) -> bool {
    &&& classes.contains_key(class_name)
    &&& classes[class_name].len() == valued_before(fields, fields.len())
    &&& classes[class_name].no_duplicates()
    &&& slots.len() == fields.len()
    &&& forall|i: int|
        #![trigger slots[i]]
        0 <= i < fields.len() ==> slots[i] == (if is_valued(fields[i]) {
            Some(
                SlotModel {
                    name: classes[class_name][valued_before(fields, i as nat) as int],
                    ty: lowered(fields[i].ty),
                },
            )
        } else {
            None
        })
}

/// Whether a type is a number, or a tuple, a closure or a struct of such types, whose parts are
/// defined and lie apart inside it and in fields of its class.
pub open spec fn is_plain(
    ty: RustType,
    defs: DefinitionsModel,
    classes: Map<Text, Seq<Text>>,
) -> bool
    decreases ty, 1nat,
{
    is_plain_number(ty) || {
        &&& size_of(ty) is Ok
        &&& bytes_of(ty) > 0
        &&& match ty.kind {
            TypeKind::Tuple { class_name, elements } => {
                &&& elements@.len() > 0
                &&& defined_fields(elements@, 0, defs) == defs
                &&& has_plain_parts(
                    slots_of_fields(SlotNames::Elements, class_name@, elements@, defs),
                    class_name@,
                    elements@,
                    bytes_of(ty),
                    defs,
                    classes,
                )
            },
            TypeKind::Closure { class_name, captures, .. } => {
                &&& closure_parts_defined(class_name@, captures@, defs) == defs
                &&& has_plain_parts(
                    slots_of_fields(SlotNames::Captures, class_name@, captures@, defs),
                    class_name@,
                    captures@,
                    bytes_of(ty),
                    defs,
                    classes,
                )
            },
            TypeKind::Adt(adt) => {
                &&& adt.role is Plain
                &&& is_laid_out_struct(adt)
                &&& struct_parts_defined(adt, defs) == defs
                &&& has_plain_parts(
                    slots_of_fields(
                        SlotNames::Declared,
                        adt.class_name@,
                        adt.variants@[0].fields@,
                        defs,
                    ),
                    adt.class_name@,
                    adt.variants@[0].fields@,
                    bytes_of(ty),
                    defs,
                    classes,
                )
            },
            _ => false,
        }
    }
}

/// Whether the parts of an aggregate of a size are plain, lie apart inside it, and stand in the
/// fields of its class.
pub open spec fn has_plain_parts(
    slots: Seq<Option<SlotModel>>,
    class_name: Text,
    fields: Seq<Field>,
    size: usize,
    defs: DefinitionsModel,
    classes: Map<Text, Seq<Text>>,
) -> bool
    decreases fields, 0nat,
{
    &&& fields.len() <= usize::MAX
    &&& slots_fit(slots, class_name, fields, classes)
    &&& forall|i: int|
        0 <= i < fields.len() && is_valued(#[trigger] fields[i]) ==> is_plain(
            fields[i].ty,
            defs,
            classes,
        ) && fields[i].offset + bytes_of(fields[i].ty) <= size
    &&& forall|i: int, j: int|
        0 <= i < j < fields.len() && is_valued(#[trigger] fields[i]) && is_valued(
            #[trigger] fields[j],
        ) ==> are_apart(fields[i], fields[j])
}

/// Whether a value is one of a plain type.
pub open spec fn fits(ty: RustType, value: Value) -> bool
    decreases ty, 1nat,
{
    if is_plain_number(ty) {
        value matches Value::Number { bits } && is_of(lowered(ty), bits)
    } else {
        match ty.kind {
            TypeKind::Tuple { class_name, elements } => parts_fit(class_name@, elements@, value),
            TypeKind::Closure { class_name, captures, .. } => parts_fit(
                class_name@,
                captures@,
                value,
            ),
            TypeKind::Adt(adt) => adt.variants@.len() > 0 && parts_fit(
                adt.class_name@,
                adt.variants@[0].fields@,
                value,
            ),
            _ => false,
        }
    }
}

/// Whether a value is an object of a class with a value for each part.
pub open spec fn parts_fit(class_name: Text, fields: Seq<Field>, value: Value) -> bool
    decreases fields, 0nat,
{
    &&& value matches Value::Object { class_name: name, parts }
    &&& name == class_name
    &&& parts.len() == valued_before(fields, fields.len())
    &&& forall|i: int|
        0 <= i < fields.len() && is_valued(#[trigger] fields[i]) ==> fits(
            fields[i].ty,
            parts[valued_before(fields, i as nat) as int],
        )
}

/// An array in which a value stands from a position on.
pub open spec fn image(ty: RustType, value: Value, bytes: Seq<u8>, at: int) -> Seq<u8>
    decreases ty, 1nat, 0nat,
{
    if is_plain_number(ty) {
        with_number(bytes, at, value->bits, number_bytes(ty) as int)
    } else {
        match ty.kind {
            TypeKind::Tuple { class_name, elements } => image_from(
                elements@,
                value->parts,
                0,
                bytes,
                at,
            ),
            TypeKind::Closure { class_name, captures, .. } => image_from(
                captures@,
                value->parts,
                0,
                bytes,
                at,
            ),
            TypeKind::Adt(adt) => if adt.variants@.len() > 0 {
                image_from(adt.variants@[0].fields@, value->parts, 0, bytes, at)
            } else {
                bytes
            },
            _ => bytes,
        }
    }
}

/// An array in which the parts of an aggregate stand, from one on.
pub open spec fn image_from(
    fields: Seq<Field>,
    parts: Seq<Value>,
    from: nat,
    bytes: Seq<u8>,
    at: int,
) -> Seq<u8>
    decreases fields, 0nat, fields.len() - from,
{
    if from >= fields.len() {
        bytes
    } else {
        let item = fields[from as int];
        let more = if is_valued(item) {
            image(
                item.ty,
                parts[valued_before(fields, from) as int],
                bytes,
                at + item.offset,
            )
        } else {
            bytes
        };
        image_from(fields, parts, from + 1, more, at)
    }
}

/// Whether the bytes of an array from a position on are those of a value.
pub open spec fn shows(ty: RustType, value: Value, bytes: Seq<u8>, at: int) -> bool
    decreases ty, 1nat,
{
    if is_plain_number(ty) {
        number_at(bytes, at, number_bytes(ty) as nat) == low_bytes(
            value->bits,
            number_bytes(ty) as int,
        )
    } else {
        match ty.kind {
            TypeKind::Tuple { class_name, elements } => parts_show(
                elements@,
                value->parts,
                bytes,
                at,
            ),
            TypeKind::Closure { class_name, captures, .. } => parts_show(
                captures@,
                value->parts,
                bytes,
                at,
            ),
            TypeKind::Adt(adt) => adt.variants@.len() > 0 && parts_show(
                adt.variants@[0].fields@,
                value->parts,
                bytes,
                at,
            ),
            _ => false,
        }
    }
}

/// Whether the bytes of an array show each part of an aggregate.
pub open spec fn parts_show(fields: Seq<Field>, parts: Seq<Value>, bytes: Seq<u8>, at: int) -> bool
    decreases fields, 0nat,
{
    forall|i: int|
        0 <= i < fields.len() && is_valued(#[trigger] fields[i]) ==> shows(
            fields[i].ty,
            parts[valued_before(fields, i as nat) as int],
            bytes,
            at + fields[i].offset,
        )
}

/// Whether two arrays have the same bytes in a range.
pub open spec fn agree(a: Seq<u8>, b: Seq<u8>, start: int, end: int) -> bool {
    forall|k: int| start <= k < end ==> #[trigger] a[k] == b[k]
}

/// There are no more parts with values before one position than before a later one.
pub proof fn rank_grows(fields: Seq<Field>, i: nat, n: nat)
    requires
        i <= n <= fields.len(),
    ensures
        valued_before(fields, i) <= valued_before(fields, n),
        i < n && is_valued(fields[i as int])
            ==> valued_before(fields, i) < valued_before(fields, n),
    decreases n,
{
    if i < n {
        rank_grows(fields, i, (n - 1) as nat);
    }
}

/// The number that bytes hold depends on these bytes only.
pub proof fn number_is_local(a: Seq<u8>, b: Seq<u8>, at: int, size: nat)
    requires
        agree(a, b, at, at + size),
    ensures
        number_at(a, at, size) == number_at(b, at, size),
    decreases size,
{
    if size > 0 {
        number_is_local(a, b, at, (size - 1) as nat);
        assert(a[at + size - 1] == b[at + size - 1]);
    }
}

/// What bytes show depends on the bytes of the value only.
pub proof fn showing_is_local(
    ty: RustType,
    value: Value,
    a: Seq<u8>,
    b: Seq<u8>,
    at: int,
    defs: DefinitionsModel,
    classes: Map<Text, Seq<Text>>,
)
    requires
        is_plain(ty, defs, classes),
        agree(a, b, at, at + bytes_of(ty)),
        shows(ty, value, a, at),
    ensures
        shows(ty, value, b, at),
    decreases ty, 1nat,
{
    if is_plain_number(ty) {
        number_is_local(a, b, at, number_bytes(ty) as nat);
    } else {
        match ty.kind {
            TypeKind::Tuple { class_name, elements } => {
                parts_are_local(
                    slots_of_fields(SlotNames::Elements, class_name@, elements@, defs),
                    class_name@,
                    elements@,
                    bytes_of(ty),
                    value->parts,
                    a,
                    b,
                    at,
                    defs,
                    classes,
                );
            },
            TypeKind::Closure { class_name, captures, .. } => {
                parts_are_local(
                    slots_of_fields(SlotNames::Captures, class_name@, captures@, defs),
                    class_name@,
                    captures@,
                    bytes_of(ty),
                    value->parts,
                    a,
                    b,
                    at,
                    defs,
                    classes,
                );
            },
            TypeKind::Adt(adt) => {
                parts_are_local(
                    slots_of_fields(
                        SlotNames::Declared,
                        adt.class_name@,
                        adt.variants@[0].fields@,
                        defs,
                    ),
                    adt.class_name@,
                    adt.variants@[0].fields@,
                    bytes_of(ty),
                    value->parts,
                    a,
                    b,
                    at,
                    defs,
                    classes,
                );
            },
            _ => {},
        }
    }
}

proof fn parts_are_local(
    slots: Seq<Option<SlotModel>>,
    class_name: Text,
    fields: Seq<Field>,
    size: usize,
    parts: Seq<Value>,
    a: Seq<u8>,
    b: Seq<u8>,
    at: int,
    defs: DefinitionsModel,
    classes: Map<Text, Seq<Text>>,
)
    requires
        has_plain_parts(slots, class_name, fields, size, defs, classes),
        agree(a, b, at, at + size),
        parts_show(fields, parts, a, at),
    ensures
        parts_show(fields, parts, b, at),
    decreases fields, 0nat,
{
    assert forall|i: int| 0 <= i < fields.len() && is_valued(#[trigger] fields[i]) implies shows(
        fields[i].ty,
        parts[valued_before(fields, i as nat) as int],
        b,
        at + fields[i].offset,
    ) by {
        showing_is_local(
            fields[i].ty,
            parts[valued_before(fields, i as nat) as int],
            a,
            b,
            at + fields[i].offset,
            defs,
            classes,
        );
    }
}

/// Whether a position is outside of all parts from one on.
pub open spec fn is_outside(fields: Seq<Field>, from: nat, at: int, k: int) -> bool {
    forall|j: int|
        from <= j < fields.len() && is_valued(#[trigger] fields[j]) ==> !(at + fields[j].offset <= k
            < at + fields[j].offset + bytes_of(fields[j].ty))
}

/// A value in an array changes nothing outside of itself.
pub proof fn image_is_local(
    ty: RustType,
    value: Value,
    bytes: Seq<u8>,
    at: int,
    defs: DefinitionsModel,
    classes: Map<Text, Seq<Text>>,
)
    requires
        is_plain(ty, defs, classes),
        0 <= at,
        at + bytes_of(ty) <= bytes.len(),
    ensures
        image(ty, value, bytes, at).len() == bytes.len(),
        forall|k: int|
            0 <= k < bytes.len() && !(at <= k < at + bytes_of(ty)) ==> #[trigger] image(
                ty,
                value,
                bytes,
                at,
            )[k] == bytes[k],
    decreases ty, 1nat, 0nat,
{
    if !is_plain_number(ty) {
        match ty.kind {
            TypeKind::Tuple { class_name, elements } => {
                image_of_parts_is_local(
                    slots_of_fields(SlotNames::Elements, class_name@, elements@, defs),
                    class_name@,
                    elements@,
                    bytes_of(ty),
                    value->parts,
                    0,
                    bytes,
                    at,
                    defs,
                    classes,
                );
                outside_of_parts(
                    slots_of_fields(SlotNames::Elements, class_name@, elements@, defs),
                    class_name@,
                    elements@,
                    bytes_of(ty),
                    0,
                    at,
                    defs,
                    classes,
                );
            },
            TypeKind::Closure { class_name, captures, .. } => {
                image_of_parts_is_local(
                    slots_of_fields(SlotNames::Captures, class_name@, captures@, defs),
                    class_name@,
                    captures@,
                    bytes_of(ty),
                    value->parts,
                    0,
                    bytes,
                    at,
                    defs,
                    classes,
                );
                outside_of_parts(
                    slots_of_fields(SlotNames::Captures, class_name@, captures@, defs),
                    class_name@,
                    captures@,
                    bytes_of(ty),
                    0,
                    at,
                    defs,
                    classes,
                );
            },
            TypeKind::Adt(adt) => {
                image_of_parts_is_local(
                    slots_of_fields(
                        SlotNames::Declared,
                        adt.class_name@,
                        adt.variants@[0].fields@,
                        defs,
                    ),
                    adt.class_name@,
                    adt.variants@[0].fields@,
                    bytes_of(ty),
                    value->parts,
                    0,
                    bytes,
                    at,
                    defs,
                    classes,
                );
                outside_of_parts(
                    slots_of_fields(
                        SlotNames::Declared,
                        adt.class_name@,
                        adt.variants@[0].fields@,
                        defs,
                    ),
                    adt.class_name@,
                    adt.variants@[0].fields@,
                    bytes_of(ty),
                    0,
                    at,
                    defs,
                    classes,
                );
            },
            _ => {},
        }
    }
}

proof fn outside_of_parts(
    slots: Seq<Option<SlotModel>>,
    class_name: Text,
    fields: Seq<Field>,
    size: usize,
    from: nat,
    at: int,
    defs: DefinitionsModel,
    classes: Map<Text, Seq<Text>>,
)
    requires
        has_plain_parts(slots, class_name, fields, size, defs, classes),
    ensures
        forall|k: int| !(at <= k < at + size) ==> #[trigger] is_outside(fields, from, at, k),
{
}

/// The parts of a value in an array change nothing outside of themselves.
pub proof fn image_of_parts_is_local(
    slots: Seq<Option<SlotModel>>,
    class_name: Text,
    fields: Seq<Field>,
    size: usize,
    parts: Seq<Value>,
    from: nat,
    bytes: Seq<u8>,
    at: int,
    defs: DefinitionsModel,
    classes: Map<Text, Seq<Text>>,
)
    requires
        has_plain_parts(slots, class_name, fields, size, defs, classes),
        0 <= at,
        at + size <= bytes.len(),
    ensures
        image_from(fields, parts, from, bytes, at).len() == bytes.len(),
        forall|k: int|
            0 <= k < bytes.len() && is_outside(fields, from, at, k) ==> #[trigger] image_from(
                fields,
                parts,
                from,
                bytes,
                at,
            )[k] == bytes[k],
    decreases fields, 0nat, fields.len() - from,
{
    if from < fields.len() {
        let item = fields[from as int];
        let part = parts[valued_before(fields, from) as int];
        let more = if is_valued(item) {
            image(item.ty, part, bytes, at + item.offset)
        } else {
            bytes
        };
        if is_valued(item) {
            image_is_local(item.ty, part, bytes, at + item.offset, defs, classes);
        }
        image_of_parts_is_local(
            slots,
            class_name,
            fields,
            size,
            parts,
            from + 1,
            more,
            at,
            defs,
            classes,
        );
        assert forall|k: int|
            0 <= k < bytes.len() && is_outside(fields, from, at, k) implies #[trigger] image_from(
            fields,
            parts,
            from,
            bytes,
            at,
        )[k] == bytes[k] by {
            assert(is_outside(fields, from + 1, at, k));
            assert(is_valued(item) ==> !(at + item.offset <= k < at + item.offset + bytes_of(
                item.ty,
            )));
        }
    }
}

/// The bytes of a value show it.
pub proof fn image_shows_the_value(
    ty: RustType,
    value: Value,
    bytes: Seq<u8>,
    at: int,
    defs: DefinitionsModel,
    classes: Map<Text, Seq<Text>>,
)
    requires
        is_plain(ty, defs, classes),
        fits(ty, value),
        0 <= at,
        at + bytes_of(ty) <= bytes.len(),
    ensures
        image(ty, value, bytes, at).len() == bytes.len(),
        shows(ty, value, image(ty, value, bytes, at), at),
    decreases ty, 1nat, 0nat,
{
    image_is_local(ty, value, bytes, at, defs, classes);
    if is_plain_number(ty) {
        number_is_put_together(bytes, at, value->bits, number_bytes(ty) as nat);
    } else {
        match ty.kind {
            TypeKind::Tuple { class_name, elements } => {
                image_shows_the_parts(
                    slots_of_fields(SlotNames::Elements, class_name@, elements@, defs),
                    class_name@,
                    elements@,
                    bytes_of(ty),
                    value,
                    0,
                    bytes,
                    at,
                    defs,
                    classes,
                );
            },
            TypeKind::Closure { class_name, captures, .. } => {
                image_shows_the_parts(
                    slots_of_fields(SlotNames::Captures, class_name@, captures@, defs),
                    class_name@,
                    captures@,
                    bytes_of(ty),
                    value,
                    0,
                    bytes,
                    at,
                    defs,
                    classes,
                );
            },
            TypeKind::Adt(adt) => {
                image_shows_the_parts(
                    slots_of_fields(
                        SlotNames::Declared,
                        adt.class_name@,
                        adt.variants@[0].fields@,
                        defs,
                    ),
                    adt.class_name@,
                    adt.variants@[0].fields@,
                    bytes_of(ty),
                    value,
                    0,
                    bytes,
                    at,
                    defs,
                    classes,
                );
            },
            _ => {},
        }
    }
}

/// The bytes of the parts of a value, from one on, show them.
pub proof fn image_shows_the_parts(
    slots: Seq<Option<SlotModel>>,
    class_name: Text,
    fields: Seq<Field>,
    size: usize,
    value: Value,
    from: nat,
    bytes: Seq<u8>,
    at: int,
    defs: DefinitionsModel,
    classes: Map<Text, Seq<Text>>,
)
    requires
        has_plain_parts(slots, class_name, fields, size, defs, classes),
        parts_fit(class_name, fields, value),
        0 <= at,
        at + size <= bytes.len(),
    ensures
        forall|j: int|
            from <= j < fields.len() && is_valued(#[trigger] fields[j]) ==> shows(
                fields[j].ty,
                value->parts[valued_before(fields, j as nat) as int],
                image_from(fields, value->parts, from, bytes, at),
                at + fields[j].offset,
            ),
    decreases fields, 0nat, fields.len() - from,
{
    let parts = value->parts;
    if from < fields.len() {
        let item = fields[from as int];
        let part = parts[valued_before(fields, from) as int];
        let more = if is_valued(item) {
            image(item.ty, part, bytes, at + item.offset)
        } else {
            bytes
        };
        if is_valued(item) {
            image_shows_the_value(item.ty, part, bytes, at + item.offset, defs, classes);
        }
        image_shows_the_parts(
            slots,
            class_name,
            fields,
            size,
            value,
            from + 1,
            more,
            at,
            defs,
            classes,
        );
        let all = image_from(fields, parts, from, bytes, at);
        assert(all == image_from(fields, parts, from + 1, more, at));
        if is_valued(item) {
            image_of_parts_is_local(
                slots,
                class_name,
                fields,
                size,
                parts,
                from + 1,
                more,
                at,
                defs,
                classes,
            );
            let start = at + item.offset;
            assert forall|k: int| start <= k < start + bytes_of(item.ty) implies #[trigger] more[k]
                == all[k] by {
                assert(is_outside(fields, from + 1, at, k)) by {
                    assert forall|j: int|
                        from + 1 <= j < fields.len() && is_valued(#[trigger] fields[j]) implies !(at
                        + fields[j].offset <= k < at + fields[j].offset + bytes_of(
                        fields[j].ty,
                    )) by {
                        assert(are_apart(fields[from as int], fields[j]));
                    }
                }
            }
            showing_is_local(item.ty, part, more, all, start, defs, classes);
        }
    }
}

} // verus!
