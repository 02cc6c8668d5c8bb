//! Coroutines come back from the bytes that their codecs make of them.
use crate::code::{
    CodeModel, DefinitionsModel, block_put, byte_array, class, constant_value, copies, emit,
    empty_code, fresh, i32_value, makes_array, makes_object, no_blocks, no_methods, object_class,
    reads_field, returns_value, switches, temp_name, typed0, value_appended, variable,
};
use crate::codec::default_value;
use crate::coroutine_codec::{
    coroutine_methods, decoding_of, encoding_of, place_of, places_stored, saved_loaded,
    state_loaded, state_switch, state_targets, states_loaded, states_stored,
};
use crate::enum_codec::variant_label;
use crate::enum_laws::{values_of_size, variant_labels_differ};
use crate::enum_trip::{loading_can_be_made, short_names_are_settled};
use crate::execution::{
    Machine, Value, array_made, assigned, classes_are_kept, decimal_is_digits, executed,
    field_value, full_value, is_later, is_settled, kept, kept_by_both, kept_by_nothing, narrowed,
    one_more_step, settled_for_longer, taken_is_settled, value_assigned, value_assignment_keeps,
    value_is_kept, value_of,
};
use crate::helper_calls::Methods;
use crate::layout::{
    SlotModel, SlotNames, slot_at, slots_of_fields, slots_of_saved, undeclared_fields,
    undeclared_saved, valued_before,
};
use crate::load::{loaded, loaded_fields};
use crate::lowering::{undeclared_defined, undeclared_saved_defined};
use crate::oomir::{
    BasicBlockModel, CodeBlockModel, ConstantModel, DataTypeMethodModel, FunctionModel,
    InstructionModel, Operand, OperandModel, Text, Type, TypeModel, has_value,
};
use crate::pointer_codec::fat_codec;
use crate::round_trip::{
    bits_are_loaded, bits_are_stored, goes_on, low_bytes, number_at, number_is_put_together,
    with_number,
};
use crate::rust_type::{
    Coroutine, CoroutineLayout, CoroutineState, Field, RustType, SavedPlace, StatePlace, TypeKind,
    at_least_one, is_dynamic, lowered,
};
use crate::scalar::{scalar_bits, stored_scalar};
use crate::scalar_trip::is_plain_number;
use crate::store::{stored, stored_adt, stored_field, stored_fields, stored_thin};
use crate::text::decimal_text;
use crate::union_storage::{
    UnionStorageModel, loaded_bits, offset_sum, small_number, storage_at_start, stored_bits,
};
use crate::value_bytes::{
    agree, bytes_of, fits, has_plain_parts, image, image_is_local, image_shows_the_value,
    is_plain, is_valued, number_is_local, rank_grows, showing_is_local, shows,
};
use crate::value_trip::{
    hold_parts, parts_are_still_held, plain_type_is_known, temps_needed, temps_needed_from,
    value_is_loaded, value_is_stored,
};
use vstd::prelude::*;
use vstd::string::*;

verus! {

/// How many of the first saved values have JVM values.
pub open spec fn saved_before(saved: Seq<RustType>, n: nat) -> nat
    decreases n,
{
    if n == 0 || n > saved.len() {
        0
    } else {
        saved_before(saved, (n - 1) as nat) + if has_value(lowered(saved[n - 1])) {
            1nat
        } else {
            0nat
        }
    }
}

/// There are no more saved values before one position than before a later one.
proof fn saved_rank_grows(saved: Seq<RustType>, i: nat, n: nat)
    requires
        i <= n <= saved.len(),
    ensures
        saved_before(saved, i) <= saved_before(saved, n),
        i < n && has_value(lowered(saved[i as int])) ==> saved_before(saved, i) < saved_before(
            saved,
            n,
        ),
    decreases n,
{
    if i < n {
        saved_rank_grows(saved, i, (n - 1) as nat);
    }
}

/// The position of the number of the state among the fields of the class of a coroutine: behind
/// what it captured.
pub open spec fn state_rank(coroutine: Coroutine) -> nat {
    valued_before(coroutine.captures@, coroutine.captures@.len())
}

/// The position of a saved value among the fields of the class of a coroutine.
pub open spec fn saved_rank(coroutine: Coroutine, saved: Seq<RustType>, j: nat) -> int {
    (state_rank(coroutine) + 1 + saved_before(saved, j)) as int
}

/// Whether what a coroutine captured, the number of its state and its saved values stand in the
/// fields of its class, in this order.
pub open spec fn carrier_fits(
    coroutine: Coroutine,
    saved: Seq<RustType>,
    capture_slots: Seq<Option<SlotModel>>,
    saved_slots: Seq<Option<SlotModel>>,
    classes: Map<Text, Seq<Text>>,
) -> bool {
    let captures = coroutine.captures@;
    let list = classes[coroutine.class_name@];
    &&& classes.contains_key(coroutine.class_name@)
    &&& list.len() == saved_rank(coroutine, saved, saved.len())
    &&& list.no_duplicates()
    &&& list[state_rank(coroutine) as int] == "__state"@
    &&& capture_slots.len() == captures.len() <= usize::MAX
    &&& forall|i: int|
        #![trigger capture_slots[i]]
        0 <= i < captures.len() ==> capture_slots[i] == (if is_valued(captures[i]) {
            Some(
                SlotModel {
                    name: list[valued_before(captures, i as nat) as int],
                    ty: lowered(captures[i].ty),
                },
            )
        } else {
            None
        })
    &&& saved_slots.len() == saved.len() <= usize::MAX
    &&& forall|i: int|
        #![trigger saved_slots[i]]
        0 <= i < saved.len() ==> saved_slots[i] == (if has_value(lowered(saved[i])) {
            Some(
                SlotModel {
                    name: list[saved_rank(coroutine, saved, i as nat)],
                    ty: lowered(saved[i]),
                },
            )
        } else {
            None
        })
}

/// Whether everything that a coroutine captured and saves is plain.
pub open spec fn holds_plain_values(
    coroutine: Coroutine,
    saved: Seq<RustType>,
    defs: DefinitionsModel,
    classes: Map<Text, Seq<Text>>,
) -> bool {
    &&& forall|i: int|
        0 <= i < coroutine.captures@.len() && is_valued(#[trigger] coroutine.captures@[i])
            ==> is_plain(coroutine.captures@[i].ty, defs, classes)
    &&& forall|i: int|
        0 <= i < saved.len() && has_value(lowered(#[trigger] saved[i])) ==> is_plain(
            saved[i],
            defs,
            classes,
        )
}

/// The code that stores a plain value can always be made.
proof fn storing_can_be_made(
    ty: RustType,
    source: OperandModel,
    storage: UnionStorageModel,
    base_offset: usize,
    code: CodeModel,
    defs: DefinitionsModel,
    classes: Map<Text, Seq<Text>>,
)
    requires
        is_plain(ty, defs, classes),
    ensures
        stored(ty, source, storage, base_offset, code, defs).1 == defs,
        stored(ty, source, storage, base_offset, code, defs).2 is Ok,
    decreases ty, 1nat, 0nat,
{
    reveal_with_fuel(lowered, 2);
    if is_plain_number(ty) {
        reveal(stored_scalar);
        reveal(scalar_bits);
    } else {
        let size = bytes_of(ty);
        let thin = stored_thin(ty, size, source, storage, base_offset, code, defs);
        assert(fat_codec(ty, defs) == (defs, None::<Text>));
        assert(stored(ty, source, storage, base_offset, code, defs) == thin);
        match ty.kind {
            TypeKind::Tuple { class_name, elements } => {
                parts_storing_can_be_made(
                    slots_of_fields(SlotNames::Elements, class_name@, elements@, defs),
                    class_name@,
                    elements@,
                    size,
                    0,
                    source,
                    storage,
                    base_offset,
                    code,
                    defs,
                    classes,
                );
            },
            TypeKind::Closure { class_name, captures, .. } => {
                parts_storing_can_be_made(
                    slots_of_fields(SlotNames::Captures, class_name@, captures@, defs),
                    class_name@,
                    captures@,
                    size,
                    0,
                    source,
                    storage,
                    base_offset,
                    code,
                    defs,
                    classes,
                );
            },
            TypeKind::Adt(adt) => {
                assert(thin == stored_adt(ty, adt, size, source, storage, base_offset, code, defs));
                parts_storing_can_be_made(
                    slots_of_fields(
                        SlotNames::Declared,
                        adt.class_name@,
                        adt.variants@[0].fields@,
                        defs,
                    ),
                    adt.class_name@,
                    adt.variants@[0].fields@,
                    size,
                    0,
                    source,
                    storage,
                    base_offset,
                    code,
                    defs,
                    classes,
                );
            },
            _ => {},
        }
    }
}

proof fn parts_storing_can_be_made(
    slots: Seq<Option<SlotModel>>,
    class_name: Text,
    fields: Seq<Field>,
    size: usize,
    index: nat,
    source: OperandModel,
    storage: UnionStorageModel,
    base_offset: usize,
    code: CodeModel,
    defs: DefinitionsModel,
    classes: Map<Text, Seq<Text>>,
)
    requires
        has_plain_parts(slots, class_name, fields, size, defs, classes),
    ensures
        stored_fields(fields, slots, class_name, source, storage, base_offset, index, code, defs).1
            == defs,
        stored_fields(
            fields,
            slots,
            class_name,
            source,
            storage,
            base_offset,
            index,
            code,
            defs,
        ).2 is Ok,
    decreases fields, 0nat, fields.len() - index,
{
    if index < fields.len() {
        let item = fields[index as int];
        assert(slot_at(slots, index as usize) == slots[index as int]);
        if is_valued(item) {
            let slot = slots[index as int]->0;
            let (taken, dest) = fresh(code, "union_aggregate_field"@);
            let code1 = emit(taken, reads_field(dest, source, slot.name, slot.ty, class_name));
            let operand = variable(dest, slot.ty);
            let offset = offset_sum(base_offset, item.offset);
            storing_can_be_made(item.ty, operand, storage, offset, code1, defs, classes);
            let one = stored_field(
                item,
                slot,
                class_name,
                source,
                storage,
                base_offset,
                code,
                defs,
            );
            assert(one == stored(item.ty, operand, storage, offset, code1, defs));
            parts_storing_can_be_made(
                slots,
                class_name,
                fields,
                size,
                index + 1,
                source,
                storage,
                base_offset,
                one.0,
                defs,
                classes,
            );
        } else {
            parts_storing_can_be_made(
                slots,
                class_name,
                fields,
                size,
                index + 1,
                source,
                storage,
                base_offset,
                code,
                defs,
                classes,
            );
        }
    }
}

/// A part of a coroutine: its type, where it stands, and its value.
pub struct Piece {
    pub ty: RustType,
    pub offset: usize,
    pub value: Value,
}

/// An array in which pieces were put, one behind the other.
pub open spec fn laid(pieces: Seq<Piece>, bytes: Seq<u8>) -> Seq<u8>
    decreases pieces.len(),
{
    if pieces.len() == 0 {
        bytes
    } else {
        let last = pieces.last();
        image(last.ty, last.value, laid(pieces.drop_last(), bytes), last.offset as int)
    }
}

/// Whether pieces are plain values inside an array of a size.
pub open spec fn lie_inside(
    pieces: Seq<Piece>,
    size: usize,
    defs: DefinitionsModel,
    classes: Map<Text, Seq<Text>>,
) -> bool {
    forall|i: int|
        #![trigger pieces[i]]
        0 <= i < pieces.len() ==> {
            &&& is_plain(pieces[i].ty, defs, classes)
            &&& fits(pieces[i].ty, pieces[i].value)
            &&& pieces[i].offset + bytes_of(pieces[i].ty) <= size
        }
}

/// Whether a range of bytes is apart from a piece.
pub open spec fn is_apart_from(piece: Piece, offset: usize, size: usize) -> bool {
    piece.offset + bytes_of(piece.ty) <= offset || offset + size <= piece.offset
}

/// Whether the pieces of two lists share no bytes.
pub open spec fn are_clear_of(a: Seq<Piece>, b: Seq<Piece>) -> bool {
    forall|i: int, j: int|
        #![trigger a[i], b[j]]
        0 <= i < a.len() && 0 <= j < b.len() ==> is_apart_from(
            a[i],
            b[j].offset,
            bytes_of(b[j].ty),
        )
}

/// Whether no two pieces share bytes.
pub open spec fn lie_apart(pieces: Seq<Piece>) -> bool {
    forall|i: int, j: int|
        #![trigger pieces[i], pieces[j]]
        0 <= i < j < pieces.len() ==> is_apart_from(
            pieces[i],
            pieces[j].offset,
            bytes_of(pieces[j].ty),
        )
}

/// Whether an array shows each of some pieces.
pub open spec fn pieces_show(pieces: Seq<Piece>, bytes: Seq<u8>) -> bool {
    forall|i: int|
        #![trigger pieces[i]]
        0 <= i < pieces.len() ==> shows(
            pieces[i].ty,
            pieces[i].value,
            bytes,
            pieces[i].offset as int,
        )
}

/// Pieces in an array change nothing in a range that is apart from all of them.
proof fn laying_is_local(
    pieces: Seq<Piece>,
    bytes: Seq<u8>,
    size: usize,
    offset: usize,
    length: usize,
    defs: DefinitionsModel,
    classes: Map<Text, Seq<Text>>,
)
    requires
        lie_inside(pieces, size, defs, classes),
        size <= bytes.len(),
        offset + length <= bytes.len(),
        forall|i: int|
            0 <= i < pieces.len() ==> is_apart_from(#[trigger] pieces[i], offset, length),
    ensures
        laid(pieces, bytes).len() == bytes.len(),
        agree(bytes, laid(pieces, bytes), offset as int, offset + length),
    decreases pieces.len(),
{
    if pieces.len() > 0 {
        let rest = pieces.drop_last();
        let last = pieces[pieces.len() - 1];
        assert forall|i: int| 0 <= i < rest.len() implies #[trigger] rest[i] == pieces[i] by {}
        laying_is_local(rest, bytes, size, offset, length, defs, classes);
        let before = laid(rest, bytes);
        image_is_local(last.ty, last.value, before, last.offset as int, defs, classes);
        assert forall|k: int| offset <= k < offset + length implies #[trigger] bytes[k] == laid(
            pieces,
            bytes,
        )[k] by {
            assert(bytes[k] == before[k]);
        }
    }
}

/// Pieces that lie apart can all be seen in the array in which they were put.
proof fn laid_pieces_show(
    pieces: Seq<Piece>,
    bytes: Seq<u8>,
    size: usize,
    defs: DefinitionsModel,
    classes: Map<Text, Seq<Text>>,
)
    requires
        lie_inside(pieces, size, defs, classes),
        size <= bytes.len(),
        lie_apart(pieces),
    ensures
        laid(pieces, bytes).len() == bytes.len(),
        pieces_show(pieces, laid(pieces, bytes)),
    decreases pieces.len(),
{
    if pieces.len() > 0 {
        let rest = pieces.drop_last();
        let n = pieces.len() - 1;
        let last = pieces[n];
        assert forall|i: int| 0 <= i < rest.len() implies #[trigger] rest[i] == pieces[i] by {}
        laid_pieces_show(rest, bytes, size, defs, classes);
        let before = laid(rest, bytes);
        let after = laid(pieces, bytes);
        image_shows_the_value(last.ty, last.value, before, last.offset as int, defs, classes);
        image_is_local(last.ty, last.value, before, last.offset as int, defs, classes);
        assert forall|i: int| 0 <= i < pieces.len() implies shows(
            (#[trigger] pieces[i]).ty,
            pieces[i].value,
            after,
            pieces[i].offset as int,
        ) by {
            if i < n {
                let item = pieces[i];
                assert(rest[i] == item);
                assert(is_apart_from(item, last.offset, bytes_of(last.ty)));
                assert(agree(
                    before,
                    after,
                    item.offset as int,
                    item.offset + bytes_of(item.ty),
                ));
                showing_is_local(
                    item.ty,
                    item.value,
                    before,
                    after,
                    item.offset as int,
                    defs,
                    classes,
                );
            }
        }
    }
}

/// Whether a value is an object of the class of a coroutine.
pub open spec fn is_carried(coroutine: Coroutine, value: Value, classes: Map<Text, Seq<Text>>)
    -> bool {
    &&& value matches Value::Object { class_name, parts }
    &&& class_name == coroutine.class_name@
    &&& parts.len() == classes[coroutine.class_name@].len()
}

/// The first things that a coroutine captured, as pieces.
pub open spec fn capture_pieces(captures: Seq<Field>, parts: Seq<Value>, n: nat) -> Seq<Piece>
    decreases n,
{
    if n == 0 || n > captures.len() {
        Seq::empty()
    } else {
        let rest = capture_pieces(captures, parts, (n - 1) as nat);
        let item = captures[n - 1];
        if is_valued(item) {
            rest.push(
                Piece {
                    ty: item.ty,
                    offset: item.offset,
                    value: parts[valued_before(captures, (n - 1) as nat) as int],
                },
            )
        } else {
            rest
        }
    }
}

/// Whether a place holds a saved value that has a JVM value.
pub open spec fn is_place(saved: Seq<RustType>, place: SavedPlace) -> bool {
    place.index < saved.len() && has_value(lowered(saved[place.index as int]))
}

/// What the first places of a state hold, as pieces.
pub open spec fn place_pieces(
    coroutine: Coroutine,
    saved: Seq<RustType>,
    places: Seq<SavedPlace>,
    parts: Seq<Value>,
    n: nat,
) -> Seq<Piece>
    decreases n,
{
    if n == 0 || n > places.len() {
        Seq::empty()
    } else {
        let rest = place_pieces(coroutine, saved, places, parts, (n - 1) as nat);
        let item = places[n - 1];
        if is_place(saved, item) {
            rest.push(
                Piece {
                    ty: saved[item.index as int],
                    offset: item.offset,
                    value: parts[saved_rank(coroutine, saved, item.index as nat)],
                },
            )
        } else {
            rest
        }
    }
}

/// The pieces of fewer captures come first.
proof fn captures_come_first(captures: Seq<Field>, parts: Seq<Value>, i: nat, n: nat)
    requires
        i <= n <= captures.len(),
    ensures
        capture_pieces(captures, parts, i).len() <= capture_pieces(captures, parts, n).len(),
        forall|k: int|
            0 <= k < capture_pieces(captures, parts, i).len() ==> #[trigger] capture_pieces(
                captures,
                parts,
                n,
            )[k] == capture_pieces(captures, parts, i)[k],
        i < n && is_valued(captures[i as int]) ==> capture_pieces(captures, parts, i).len()
            < capture_pieces(captures, parts, n).len() && capture_pieces(captures, parts, n)[
            capture_pieces(captures, parts, i).len() as int
        ] == (Piece {
            ty: captures[i as int].ty,
            offset: captures[i as int].offset,
            value: parts[valued_before(captures, i) as int],
        }),
    decreases n,
{
    if i < n {
        captures_come_first(captures, parts, i, (n - 1) as nat);
    }
}

/// The pieces of fewer places come first.
proof fn places_come_first(
    coroutine: Coroutine,
    saved: Seq<RustType>,
    places: Seq<SavedPlace>,
    parts: Seq<Value>,
    i: nat,
    n: nat,
)
    requires
        i <= n <= places.len(),
    ensures
        ({
            let few = place_pieces(coroutine, saved, places, parts, i);
            let all = place_pieces(coroutine, saved, places, parts, n);
            &&& few.len() <= all.len()
            &&& forall|k: int| 0 <= k < few.len() ==> #[trigger] all[k] == few[k]
            &&& i < n && is_place(saved, places[i as int]) ==> few.len() < all.len()
                && all[few.len() as int] == (Piece {
                ty: saved[places[i as int].index as int],
                offset: places[i as int].offset,
                value: parts[saved_rank(coroutine, saved, places[i as int].index as nat)],
            })
        }),
    decreases n,
{
    if i < n {
        places_come_first(coroutine, saved, places, parts, i, (n - 1) as nat);
    }
}

/// The field of a coroutine at a position holds the part at this position.
proof fn field_of_carrier(
    coroutine: Coroutine,
    saved: Seq<RustType>,
    capture_slots: Seq<Option<SlotModel>>,
    saved_slots: Seq<Option<SlotModel>>,
    value: Value,
    m: Machine,
    rank: int,
)
    requires
        carrier_fits(coroutine, saved, capture_slots, saved_slots, m.classes),
        is_carried(coroutine, value, m.classes),
        0 <= rank < m.classes[coroutine.class_name@].len(),
    ensures
        field_value(m, value, m.classes[coroutine.class_name@][rank]) == Some(value->parts[rank]),
{
    let list = m.classes[coroutine.class_name@];
    assert(list.contains(list[rank]));
    let k = list.index_of(list[rank]);
    assert(0 <= k < list.len() && list[k] == list[rank]);
    assert(k == rank);
}

/// The code that stores one field of an object puts its bytes into the array.
proof fn piece_is_stored(
    ty: RustType,
    part: Value,
    name: Text,
    class_name: Text,
    value: Value,
    offset: usize,
    code: CodeModel,
    defs: DefinitionsModel,
    first: Machine,
    m: Machine,
) -> (n: Machine)
    requires
        executed(first, code.instructions, 0) == Some(m),
        m.objects.contains_key("_1"@),
        m.objects["_1"@] == value,
        field_value(m, value, name) == Some(part),
        is_plain(ty, defs, m.classes),
        fits(ty, part),
        m.arrays.contains_key("_bytes"@),
        offset + bytes_of(ty) <= m.arrays["_bytes"@].len() <= i32::MAX,
        code.temps + 1 + temps_needed(ty) <= usize::MAX,
    ensures
        ({
            let storage = storage_at_start("_bytes"@, "_objects"@);
            let (taken, dest) = fresh(code, "union_aggregate_field"@);
            let code1 = emit(
                taken,
                reads_field(
                    dest,
                    variable("_1"@, class(class_name)),
                    name,
                    lowered(ty),
                    class_name,
                ),
            );
            let (after, defs1, outcome) = stored(
                ty,
                variable(dest, lowered(ty)),
                storage,
                offset,
                code1,
                defs,
            );
            &&& outcome is Ok
            &&& defs1 == defs
            &&& executed(first, after.instructions, 0) == Some(n)
            &&& n.arrays == m.arrays.insert(
                "_bytes"@,
                image(ty, part, m.arrays["_bytes"@], offset as int),
            )
            &&& kept(m, n, code.temps)
            &&& n.classes == m.classes
            &&& n.objects.contains_key("_1"@)
            &&& n.objects["_1"@] == value
            &&& goes_on(code, after, 1 + temps_needed(ty) as int)
        }),
{
    reveal_strlit("union_aggregate_field");
    reveal_strlit("_1");
    short_names_are_settled("_1"@, code.temps);
    let storage = storage_at_start("_bytes"@, "_objects"@);
    let source = variable("_1"@, class(class_name));
    let slot_ty = lowered(ty);
    plain_type_is_known(ty, part, defs, m.classes);
    let (taken, dest) = fresh(code, "union_aggregate_field"@);
    let instruction = reads_field(dest, source, name, slot_ty, class_name);
    let code1 = emit(taken, instruction);
    let m1 = value_assigned(m, dest, part);
    one_more_step(first, taken, 0, instruction);
    assert(executed(first, code1.instructions, 0) == Some(m1));
    value_assignment_keeps(m, "union_aggregate_field"@, code.temps, part);
    taken_is_settled("union_aggregate_field"@, code.temps, code1.temps);
    let operand = variable(dest, slot_ty);
    assert(full_value(m1, operand) == Some(part));
    classes_are_kept(m, m1, code.temps);
    let n = value_is_stored(
        ty,
        part,
        operand,
        storage,
        offset,
        code1,
        defs,
        0,
        first,
        m1,
        0,
    );
    kept_by_both(m, m1, n, code.temps, code1.temps);
    classes_are_kept(m, n, code.temps);
    reveal(kept);
    n
}

/// The code that stores what a coroutine captured, from one on, puts the pieces into the array.
proof fn captures_are_stored(
    coroutine: Coroutine,
    saved: Seq<RustType>,
    capture_slots: Seq<Option<SlotModel>>,
    saved_slots: Seq<Option<SlotModel>>,
    size: usize,
    value: Value,
    bytes: Seq<u8>,
    index: nat,
    code: CodeModel,
    defs: DefinitionsModel,
    first: Machine,
    m: Machine,
) -> (n: Machine)
    requires
        executed(first, code.instructions, 0) == Some(m),
        carrier_fits(coroutine, saved, capture_slots, saved_slots, m.classes),
        is_carried(coroutine, value, m.classes),
        lie_inside(
            capture_pieces(coroutine.captures@, value->parts, coroutine.captures@.len()),
            size,
            defs,
            m.classes,
        ),
        index <= coroutine.captures@.len(),
        m.objects.contains_key("_1"@),
        m.objects["_1"@] == value,
        m.arrays.contains_key("_bytes"@),
        m.arrays["_bytes"@] == laid(
            capture_pieces(coroutine.captures@, value->parts, index),
            bytes,
        ),
        size <= m.arrays["_bytes"@].len() <= i32::MAX,
        code.temps + temps_needed_from(coroutine.captures@, index) <= usize::MAX,
    ensures
        ({
            let captures = coroutine.captures@;
            let class_name = coroutine.class_name@;
            let (after, defs1, outcome) = stored_fields(
                captures,
                capture_slots,
                class_name,
                variable("_1"@, class(class_name)),
                storage_at_start("_bytes"@, "_objects"@),
                0,
                index,
                code,
                defs,
            );
            &&& outcome is Ok
            &&& defs1 == defs
            &&& executed(first, after.instructions, 0) == Some(n)
            &&& n.arrays == m.arrays.insert(
                "_bytes"@,
                laid(capture_pieces(captures, value->parts, captures.len()), bytes),
            )
            &&& n.arrays["_bytes"@].len() == m.arrays["_bytes"@].len()
            &&& n.classes == m.classes
            &&& n.objects.contains_key("_1"@)
            &&& n.objects["_1"@] == value
            &&& goes_on(code, after, temps_needed_from(captures, index) as int)
        }),
    decreases coroutine.captures@.len() - index,
{
    let captures = coroutine.captures@;
    let class_name = coroutine.class_name@;
    let parts = value->parts;
    let storage = storage_at_start("_bytes"@, "_objects"@);
    let source = variable("_1"@, class(class_name));
    if index >= captures.len() {
        assert(m.arrays.insert("_bytes"@, m.arrays["_bytes"@]) =~= m.arrays);
        m
    } else {
        let item = captures[index as int];
        assert(slot_at(capture_slots, index as usize) == capture_slots[index as int]);
        let few = capture_pieces(captures, parts, index);
        let more = capture_pieces(captures, parts, index + 1);
        if !is_valued(item) {
            captures_are_stored(
                coroutine,
                saved,
                capture_slots,
                saved_slots,
                size,
                value,
                bytes,
                index + 1,
                code,
                defs,
                first,
                m,
            )
        } else {
            rank_grows(captures, index, captures.len());
            captures_come_first(captures, parts, index, captures.len());
            let rank = valued_before(captures, index) as int;
            let part = parts[rank];
            let slot = capture_slots[index as int]->0;
            field_of_carrier(
                coroutine,
                saved,
                capture_slots,
                saved_slots,
                value,
                m,
                rank,
            );
            let all = capture_pieces(captures, parts, captures.len());
            let piece = all[few.len() as int];
            assert(piece.ty == item.ty && piece.offset == item.offset && piece.value == part);
            plain_type_is_known(item.ty, part, defs, m.classes);
            let n1 = piece_is_stored(
                item.ty,
                part,
                slot.name,
                class_name,
                value,
                item.offset,
                code,
                defs,
                first,
                m,
            );
            image_is_local(
                item.ty,
                part,
                m.arrays["_bytes"@],
                item.offset as int,
                defs,
                m.classes,
            );
            assert(more.drop_last() =~= few);
            let one = stored_field(item, slot, class_name, source, storage, 0, code, defs);
            let n = captures_are_stored(
                coroutine,
                saved,
                capture_slots,
                saved_slots,
                size,
                value,
                bytes,
                index + 1,
                one.0,
                defs,
                first,
                n1,
            );
            assert(stored_fields(
                captures,
                capture_slots,
                class_name,
                source,
                storage,
                0,
                index,
                code,
                defs,
            ) == stored_fields(
                captures,
                capture_slots,
                class_name,
                source,
                storage,
                0,
                index + 1,
                one.0,
                defs,
            ));
            assert(n.arrays =~= m.arrays.insert("_bytes"@, laid(all, bytes)));
            n
        }
    }
}

/// How many temporaries the code for the places of a state takes at most, from one on.
pub open spec fn place_temps(saved: Seq<RustType>, places: Seq<SavedPlace>, from: nat) -> nat
    decreases places.len() - from,
{
    if from >= places.len() {
        0
    } else {
        1 + if is_place(saved, places[from as int]) {
            temps_needed(saved[places[from as int].index as int])
        } else {
            0
        } + place_temps(saved, places, from + 1)
    }
}

/// The code that stores the saved values of a state, from one on, puts the pieces into the array.
proof fn places_are_stored(
    coroutine: Coroutine,
    saved: Seq<RustType>,
    capture_slots: Seq<Option<SlotModel>>,
    saved_slots: Seq<Option<SlotModel>>,
    size: usize,
    places: Seq<SavedPlace>,
    value: Value,
    bytes: Seq<u8>,
    index: nat,
    code: CodeModel,
    defs: DefinitionsModel,
    first: Machine,
    m: Machine,
) -> (n: Machine)
    requires
        executed(first, code.instructions, 0) == Some(m),
        carrier_fits(coroutine, saved, capture_slots, saved_slots, m.classes),
        is_carried(coroutine, value, m.classes),
        lie_inside(
            place_pieces(coroutine, saved, places, value->parts, places.len()),
            size,
            defs,
            m.classes,
        ),
        index <= places.len(),
        m.objects.contains_key("_1"@),
        m.objects["_1"@] == value,
        m.arrays.contains_key("_bytes"@),
        m.arrays["_bytes"@] == laid(
            place_pieces(coroutine, saved, places, value->parts, index),
            bytes,
        ),
        size <= m.arrays["_bytes"@].len() <= i32::MAX,
        code.temps + place_temps(saved, places, index) <= usize::MAX,
    ensures
        ({
            let class_name = coroutine.class_name@;
            let (after, defs1, outcome) = places_stored(
                places,
                saved,
                saved_slots,
                class_name,
                variable("_1"@, class(class_name)),
                storage_at_start("_bytes"@, "_objects"@),
                index,
                code,
                defs,
            );
            &&& outcome is Ok
            &&& defs1 == defs
            &&& executed(first, after.instructions, 0) == Some(n)
            &&& n.arrays == m.arrays.insert(
                "_bytes"@,
                laid(place_pieces(coroutine, saved, places, value->parts, places.len()), bytes),
            )
        }),
    decreases places.len() - index,
{
    let class_name = coroutine.class_name@;
    let parts = value->parts;
    let storage = storage_at_start("_bytes"@, "_objects"@);
    let source = variable("_1"@, class(class_name));
    if index >= places.len() {
        assert(m.arrays.insert("_bytes"@, m.arrays["_bytes"@]) =~= m.arrays);
        m
    } else {
        let item = places[index as int];
        if item.index < saved.len() {
            assert(slot_at(saved_slots, item.index) == saved_slots[item.index as int]);
        }
        let few = place_pieces(coroutine, saved, places, parts, index);
        let more = place_pieces(coroutine, saved, places, parts, index + 1);
        if !is_place(saved, item) {
            places_are_stored(
                coroutine,
                saved,
                capture_slots,
                saved_slots,
                size,
                places,
                value,
                bytes,
                index + 1,
                code,
                defs,
                first,
                m,
            )
        } else {
            let j = item.index as nat;
            saved_rank_grows(saved, j, saved.len());
            places_come_first(coroutine, saved, places, parts, index, places.len());
            let rank = saved_rank(coroutine, saved, j);
            let part = parts[rank];
            let ty = saved[j as int];
            let slot = saved_slots[j as int]->0;
            field_of_carrier(
                coroutine,
                saved,
                capture_slots,
                saved_slots,
                value,
                m,
                rank,
            );
            let all = place_pieces(coroutine, saved, places, parts, places.len());
            let piece = all[few.len() as int];
            assert(piece.ty == ty && piece.offset == item.offset && piece.value == part);
            plain_type_is_known(ty, part, defs, m.classes);
            let n1 = piece_is_stored(
                ty,
                part,
                slot.name,
                class_name,
                value,
                item.offset,
                code,
                defs,
                first,
                m,
            );
            image_is_local(ty, part, m.arrays["_bytes"@], item.offset as int, defs, m.classes);
            assert(more.drop_last() =~= few);
            let (taken, dest) = fresh(code, "union_aggregate_field"@);
            let code1 = emit(taken, reads_field(dest, source, slot.name, slot.ty, class_name));
            let one = stored(ty, variable(dest, slot.ty), storage, item.offset, code1, defs);
            let n = places_are_stored(
                coroutine,
                saved,
                capture_slots,
                saved_slots,
                size,
                places,
                value,
                bytes,
                index + 1,
                one.0,
                defs,
                first,
                n1,
            );
            assert(n.arrays =~= m.arrays.insert("_bytes"@, laid(all, bytes)));
            n
        }
    }
}

/// The code that loads what a coroutine captured, from one on, gives the parts.
proof fn captures_are_loaded(
    coroutine: Coroutine,
    saved: Seq<RustType>,
    capture_slots: Seq<Option<SlotModel>>,
    saved_slots: Seq<Option<SlotModel>>,
    size: usize,
    value: Value,
    index: nat,
    code: CodeModel,
    defs: DefinitionsModel,
    values: Seq<(OperandModel, TypeModel)>,
    first: Machine,
    m: Machine,
) -> (n: Machine)
    requires
        executed(first, code.instructions, 0) == Some(m),
        carrier_fits(coroutine, saved, capture_slots, saved_slots, m.classes),
        is_carried(coroutine, value, m.classes),
        lie_inside(
            capture_pieces(coroutine.captures@, value->parts, coroutine.captures@.len()),
            size,
            defs,
            m.classes,
        ),
        index <= coroutine.captures@.len(),
        m.arrays.contains_key("_1"@),
        size <= m.arrays["_1"@].len() <= i32::MAX,
        pieces_show(
            capture_pieces(coroutine.captures@, value->parts, coroutine.captures@.len()),
            m.arrays["_1"@],
        ),
        values.len() == valued_before(coroutine.captures@, index),
        hold_parts(m, values, value->parts, code.temps),
        code.temps + temps_needed_from(coroutine.captures@, index) <= usize::MAX,
    ensures
        ({
            let captures = coroutine.captures@;
            let (after, defs1, all, outcome) = loaded_fields(
                captures,
                capture_slots,
                storage_at_start("_1"@, "_objects"@),
                0,
                index,
                code,
                defs,
                values,
            );
            &&& outcome is Ok
            &&& defs1 == defs
            &&& executed(first, after.instructions, 0) == Some(n)
            &&& n.arrays == m.arrays
            &&& n.classes == m.classes
            &&& kept(m, n, code.temps)
            &&& goes_on(code, after, temps_needed_from(captures, index) as int)
            &&& all.len() == state_rank(coroutine)
            &&& hold_parts(n, all, value->parts, after.temps)
        }),
    decreases coroutine.captures@.len() - index,
{
    let captures = coroutine.captures@;
    let parts = value->parts;
    let storage = storage_at_start("_1"@, "_objects"@);
    if index >= captures.len() {
        kept_by_nothing(m, m, code.temps);
        m
    } else {
        let item = captures[index as int];
        assert(slot_at(capture_slots, index as usize) == capture_slots[index as int]);
        if !is_valued(item) {
            captures_are_loaded(
                coroutine,
                saved,
                capture_slots,
                saved_slots,
                size,
                value,
                index + 1,
                code,
                defs,
                values,
                first,
                m,
            )
        } else {
            rank_grows(captures, index, captures.len());
            captures_come_first(captures, parts, index, captures.len());
            let rank = valued_before(captures, index) as int;
            let part = parts[rank];
            let all = capture_pieces(captures, parts, captures.len());
            let piece = all[capture_pieces(captures, parts, index).len() as int];
            assert(piece.ty == item.ty && piece.offset == item.offset && piece.value == part);
            plain_type_is_known(item.ty, part, defs, m.classes);
            let one = loaded(item.ty, storage, item.offset, code, defs);
            let m1 = value_is_loaded(
                item.ty,
                part,
                storage,
                item.offset,
                code,
                defs,
                0,
                first,
                m,
                0,
            );
            let code1 = one.0;
            let more = value_appended(one.2->Ok_0, lowered(item.ty), values);
            classes_are_kept(m, m1, code.temps);
            parts_are_still_held(m, m1, values, parts, code.temps, code1.temps);
            assert(hold_parts(m1, more, parts, code1.temps)) by {
                assert forall|k: int| 0 <= k < more.len() implies full_value(
                    m1,
                    #[trigger] more[k].0,
                ) == Some(parts[k]) && is_settled(more[k].0, code1.temps) by {
                    if k < values.len() {
                        assert(more[k] == values[k]);
                    }
                }
            }
            let n = captures_are_loaded(
                coroutine,
                saved,
                capture_slots,
                saved_slots,
                size,
                value,
                index + 1,
                code1,
                defs,
                more,
                first,
                m1,
            );
            kept_by_both(m, m1, n, code.temps, code1.temps);
            assert(loaded_fields(
                captures,
                capture_slots,
                storage,
                0,
                index,
                code,
                defs,
                values,
            ) == loaded_fields(
                captures,
                capture_slots,
                storage,
                0,
                index + 1,
                code1,
                defs,
                more,
            ));
            n
        }
    }
}

/// Whether constructor arguments stand for the parts of a coroutine, with the first of its saved
/// values: those that its state holds are the parts themselves, the others are defaults.
pub open spec fn hand_over(
    m: Machine,
    values: Seq<(OperandModel, TypeModel)>,
    coroutine: Coroutine,
    saved: Seq<RustType>,
    places: Seq<SavedPlace>,
    parts: Seq<Value>,
    n: nat,
) -> bool {
    &&& values.len() == saved_rank(coroutine, saved, n)
    &&& forall|k: int|
        0 <= k <= state_rank(coroutine) ==> full_value(m, #[trigger] values[k].0) == Some(parts[k])
    &&& forall|j: int|
        0 <= j < n && has_value(lowered(#[trigger] saved[j])) ==> {
            let rank = saved_rank(coroutine, saved, j as nat);
            if place_of(places, j as usize) is Some {
                full_value(m, values[rank].0) == Some(parts[rank])
            } else {
                values[rank].0 == default_value(lowered(saved[j]))
            }
        }
}

/// Whether all constructor arguments are settled.
pub open spec fn are_settled(values: Seq<(OperandModel, TypeModel)>, temps: usize) -> bool {
    forall|k: int| 0 <= k < values.len() ==> is_settled((#[trigger] values[k]).0, temps)
}

/// What was handed over stays so.
proof fn still_handed_over(
    m: Machine,
    n: Machine,
    values: Seq<(OperandModel, TypeModel)>,
    coroutine: Coroutine,
    saved: Seq<RustType>,
    places: Seq<SavedPlace>,
    parts: Seq<Value>,
    count: nat,
    first: usize,
    second: usize,
)
    requires
        hand_over(m, values, coroutine, saved, places, parts, count),
        are_settled(values, first),
        kept(m, n, first),
        first <= second,
        count <= saved.len(),
    ensures
        hand_over(n, values, coroutine, saved, places, parts, count),
        are_settled(values, second),
{
    assert forall|k: int| 0 <= k < values.len() implies is_settled(
        (#[trigger] values[k]).0,
        second,
    ) && full_value(n, values[k].0) == full_value(m, values[k].0) by {
        value_is_kept(m, n, first, values[k].0);
        settled_for_longer(values[k].0, first, second);
    }
    assert forall|j: int| 0 <= j < count && has_value(lowered(#[trigger] saved[j])) implies 0
        <= saved_rank(coroutine, saved, j as nat) < values.len() by {
        saved_rank_grows(saved, j as nat, count);
    }
    assert forall|j: int| 0 <= j < count && has_value(lowered(#[trigger] saved[j])) implies {
        let rank = saved_rank(coroutine, saved, j as nat);
        if place_of(places, j as usize) is Some {
            full_value(n, values[rank].0) == Some(parts[rank])
        } else {
            values[rank].0 == default_value(lowered(saved[j]))
        }
    } by {
        let rank = saved_rank(coroutine, saved, j as nat);
        assert(full_value(n, values[rank].0) == full_value(m, values[rank].0));
    }
    assert forall|k: int| 0 <= k <= state_rank(coroutine) implies full_value(
        n,
        #[trigger] values[k].0,
    ) == Some(parts[k]) by {
        assert(full_value(n, values[k].0) == full_value(m, values[k].0));
    }
}

/// Where a state holds a saved value is one of its places.
proof fn place_is_found(places: Seq<SavedPlace>, index: usize) -> (k: int)
    requires
        place_of(places, index) is Some,
    ensures
        0 <= k < places.len(),
        places[k].index == index,
        Some(places[k].offset) == place_of(places, index),
    decreases places.len(),
{
    if places.last().index == index {
        places.len() - 1
    } else {
        place_is_found(places.drop_last(), index)
    }
}

/// How many temporaries the code that loads the saved values of a state takes at most, from one
/// on.
pub open spec fn saved_temps(saved: Seq<RustType>, from: nat) -> nat
    decreases saved.len() - from,
{
    if from >= saved.len() {
        0
    } else {
        temps_needed(saved[from as int]) + saved_temps(saved, from + 1)
    }
}

/// The code that loads the saved values of a state, from one on, gives those that the state holds
/// and defaults for the others.
#[verifier::rlimit(40)]
proof fn saved_values_are_loaded(
    coroutine: Coroutine,
    saved: Seq<RustType>,
    capture_slots: Seq<Option<SlotModel>>,
    saved_slots: Seq<Option<SlotModel>>,
    size: usize,
    places: Seq<SavedPlace>,
    value: Value,
    index: nat,
    code: CodeModel,
    defs: DefinitionsModel,
    values: Seq<(OperandModel, TypeModel)>,
    first: Machine,
    m: Machine,
) -> (n: Machine)
    requires
        executed(first, code.instructions, 0) == Some(m),
        carrier_fits(coroutine, saved, capture_slots, saved_slots, m.classes),
        is_carried(coroutine, value, m.classes),
        lie_inside(
            place_pieces(coroutine, saved, places, value->parts, places.len()),
            size,
            defs,
            m.classes,
        ),
        index <= saved.len(),
        m.arrays.contains_key("_1"@),
        size <= m.arrays["_1"@].len() <= i32::MAX,
        pieces_show(
            place_pieces(coroutine, saved, places, value->parts, places.len()),
            m.arrays["_1"@],
        ),
        hand_over(m, values, coroutine, saved, places, value->parts, index),
        are_settled(values, code.temps),
        code.temps + saved_temps(saved, index) <= usize::MAX,
    ensures
        ({
            let (after, defs1, all, outcome) = saved_loaded(
                saved,
                saved_slots,
                places,
                storage_at_start("_1"@, "_objects"@),
                index,
                code,
                defs,
                values,
            );
            &&& outcome is Ok
            &&& defs1 == defs
            &&& executed(first, after.instructions, 0) == Some(n)
            &&& hand_over(n, all, coroutine, saved, places, value->parts, saved.len())
        }),
    decreases saved.len() - index,
{
    let parts = value->parts;
    let storage = storage_at_start("_1"@, "_objects"@);
    if index >= saved.len() {
        m
    } else {
        let item = saved[index as int];
        let rank = saved_rank(coroutine, saved, index);
        assert(slot_at(saved_slots, index as usize) == saved_slots[index as int]);
        if !has_value(lowered(item)) {
            saved_values_are_loaded(
                coroutine,
                saved,
                capture_slots,
                saved_slots,
                size,
                places,
                value,
                index + 1,
                code,
                defs,
                values,
                first,
                m,
            )
        } else {
            let ty = lowered(item);
            match place_of(places, index as usize) {
                None => {
                    let more = value_appended(default_value(ty), ty, values);
                    one_more_is_handed_over(
                        m,
                        values,
                        (default_value(ty), ty),
                        coroutine,
                        saved,
                        places,
                        parts,
                        index,
                        code.temps,
                    );
                    saved_values_are_loaded(
                        coroutine,
                        saved,
                        capture_slots,
                        saved_slots,
                        size,
                        places,
                        value,
                        index + 1,
                        code,
                        defs,
                        more,
                        first,
                        m,
                    )
                },
                Some(offset) => {
                    let k = place_is_found(places, index as usize);
                    places_come_first(coroutine, saved, places, parts, k as nat, places.len());
                    let all = place_pieces(coroutine, saved, places, parts, places.len());
                    let few = place_pieces(coroutine, saved, places, parts, k as nat);
                    let piece = all[few.len() as int];
                    let part = parts[rank];
                    assert(piece.ty == item && piece.offset == offset && piece.value == part);
                    let one = loaded(item, storage, offset, code, defs);
                    let m1 = value_is_loaded(
                        item,
                        part,
                        storage,
                        offset,
                        code,
                        defs,
                        0,
                        first,
                        m,
                        0,
                    );
                    let code1 = one.0;
                    classes_are_kept(m, m1, code.temps);
                    still_handed_over(
                        m,
                        m1,
                        values,
                        coroutine,
                        saved,
                        places,
                        parts,
                        index,
                        code.temps,
                        code1.temps,
                    );
                    let more = value_appended(one.2->Ok_0, ty, values);
                    one_more_is_handed_over(
                        m1,
                        values,
                        (one.2->Ok_0, ty),
                        coroutine,
                        saved,
                        places,
                        parts,
                        index,
                        code1.temps,
                    );
                    saved_values_are_loaded(
                        coroutine,
                        saved,
                        capture_slots,
                        saved_slots,
                        size,
                        places,
                        value,
                        index + 1,
                        code1,
                        defs,
                        more,
                        first,
                        m1,
                    )
                },
            }
        }
    }
}

/// One more argument hands over one more saved value.
proof fn one_more_is_handed_over(
    m: Machine,
    values: Seq<(OperandModel, TypeModel)>,
    last: (OperandModel, TypeModel),
    coroutine: Coroutine,
    saved: Seq<RustType>,
    places: Seq<SavedPlace>,
    parts: Seq<Value>,
    index: nat,
    temps: usize,
)
    requires
        index < saved.len(),
        has_value(lowered(saved[index as int])),
        hand_over(m, values, coroutine, saved, places, parts, index),
        are_settled(values, temps),
        is_settled(last.0, temps),
        if place_of(places, index as usize) is Some {
            full_value(m, last.0) == Some(parts[saved_rank(coroutine, saved, index)])
        } else {
            last.0 == default_value(lowered(saved[index as int]))
        },
    ensures
        hand_over(m, values.push(last), coroutine, saved, places, parts, index + 1),
        are_settled(values.push(last), temps),
{
    let more = values.push(last);
    assert forall|k: int| 0 <= k < values.len() implies #[trigger] more[k] == values[k] by {}
    assert forall|j: int| 0 <= j < index + 1 && has_value(lowered(#[trigger] saved[j])) implies {
        let rank = saved_rank(coroutine, saved, j as nat);
        if place_of(places, j as usize) is Some {
            full_value(m, more[rank].0) == Some(parts[rank])
        } else {
            more[rank].0 == default_value(lowered(saved[j]))
        }
    } by {
        if j < index {
            saved_rank_grows(saved, j as nat, index);
        }
    }
    assert forall|k: int| 0 <= k <= state_rank(coroutine) implies full_value(
        m,
        #[trigger] more[k].0,
    ) == Some(parts[k]) by {
        assert(more[k] == values[k]);
    }
}

/// Names that do not end in a digit are never those of temporaries.
proof fn words_are_settled(name: Text, temps: usize)
    requires
        name.len() > 0,
        !('0' <= name.last() <= '9'),
    ensures
        !is_later(name, temps),
{
    reveal(is_later);
    if is_later(name, temps) {
        let (p, k) = choose|p: Text, k: usize|
            p.len() > 0 && k >= temps && name == #[trigger] temp_name(p, k);
        decimal_is_digits(k as nat);
        let digits = decimal_text(k as nat);
        assert(temp_name(p, k).last() == digits[digits.len() - 1]);
    }
}

/// Where a switch goes for a number: to the first target with it, or to the default.
pub open spec fn target_of(
    m: Machine,
    targets: Seq<(ConstantModel, Text)>,
    x: u64,
    from: nat,
    otherwise: Text,
) -> Text
    decreases targets.len() - from,
{
    if from >= targets.len() {
        otherwise
    } else if value_of(m, constant_value(targets[from as int].0)) == Some(x) {
        targets[from as int].1
    } else {
        target_of(m, targets, x, from + 1, otherwise)
    }
}

/// The first block of a method leads to the block of this label, and the point at which it does;
/// nothing where it fails or does not end in a switch.
pub open spec fn leads_to(m: Machine, body: CodeBlockModel) -> Option<(Machine, Text)> {
    let list = body.basic_blocks[body.entry].instructions;
    if !body.basic_blocks.contains_key(body.entry) || list.len() == 0 {
        None
    } else {
        match executed(m, list.drop_last(), 0) {
            None => None,
            Some(n) => match list.last() {
                InstructionModel::Switch { discr, targets, otherwise } => match value_of(
                    n,
                    discr,
                ) {
                    Some(x) => Some((n, target_of(n, targets, x, 0, otherwise))),
                    None => None,
                },
                _ => None,
            },
        }
    }
}

/// The switch of a coroutine goes to the block of its state.
proof fn state_is_chosen(m: Machine, count: nat, i: nat, from: nat, otherwise: Text)
    requires
        from <= i < count <= i32::MAX,
    ensures
        target_of(m, state_targets(count), i as u64, from, otherwise) == variant_label(i as usize),
    decreases i - from,
{
    if from < i {
        state_is_chosen(m, count, i, from + 1, otherwise);
    }
}

/// The number of a state is what its bytes hold.
proof fn state_is_a_number(i: u64, size: usize)
    requires
        size == 1 || size == 2 || size == 4,
        i < values_of_size(size as nat),
        i <= i32::MAX,
    ensures
        low_bytes(i, size as int) == i,
        narrowed(Type::I32, i) == i,
{
    reveal_with_fuel(values_of_size, 5);
    assert(i < 0x8000_0000 ==> (((i << 32) as i64) >> 32) as u64 == i && i & (((1u64 << 32u64)
        - 1) as u64) == i && (i < 0x100 ==> i & (((1u64 << 8u64) - 1) as u64) == i) && (i < 0x1_0000
        ==> i & (((1u64 << 16u64) - 1) as u64) == i)) by (bit_vector);
}

/// The code of the first block of an encoder before its switch.
pub open spec fn encoder_entry(
    coroutine: Coroutine,
    place: StatePlace,
    size: usize,
    capture_slots: Seq<Option<SlotModel>>,
    code: CodeModel,
    defs: DefinitionsModel,
) -> CodeModel {
    let class_name = coroutine.class_name@;
    let storage = storage_at_start("_bytes"@, "_objects"@);
    let source = variable("_1"@, class(class_name));
    let arrays = emit(
        emit(code, makes_array("_bytes"@, Type::I8, i32_value(small_number(size)))),
        makes_array("_objects"@, object_class(), i32_value(small_number(at_least_one(size)))),
    );
    let captured = stored_fields(
        coroutine.captures@,
        capture_slots,
        class_name,
        source,
        storage,
        0,
        0,
        arrays,
        defs,
    ).0;
    stored_bits(
        variable("_coroutine_state"@, Type::I32),
        Type::I32,
        place.size as nat,
        storage,
        place.offset,
        emit(
            captured,
            reads_field("_coroutine_state"@, source, "__state"@, Type::I32, class_name),
        ),
    )
}

/// The code at the point where the block that stores a state begins.
pub open spec fn storing_code(
    coroutine: Coroutine,
    variants: Seq<CoroutineState>,
    saved: Seq<RustType>,
    saved_slots: Seq<Option<SlotModel>>,
    i: nat,
    code: CodeModel,
    defs: DefinitionsModel,
) -> CodeModel
    decreases i,
{
    if i == 0 {
        code
    } else {
        let before = storing_code(
            coroutine,
            variants,
            saved,
            saved_slots,
            (i - 1) as nat,
            code,
            defs,
        );
        empty_code(
            storing_of_state(coroutine, variants[i - 1], saved, saved_slots, before, defs).temps,
        )
    }
}

/// What the block that stores a state does before it returns.
pub open spec fn storing_of_state(
    coroutine: Coroutine,
    state: CoroutineState,
    saved: Seq<RustType>,
    saved_slots: Seq<Option<SlotModel>>,
    code: CodeModel,
    defs: DefinitionsModel,
) -> CodeModel {
    places_stored(
        state.places@,
        saved,
        saved_slots,
        coroutine.class_name@,
        variable("_1"@, class(coroutine.class_name@)),
        storage_at_start("_bytes"@, "_objects"@),
        0,
        code,
        defs,
    ).0
}

/// The code that stores the places of a state can always be made.
proof fn places_can_be_stored(
    coroutine: Coroutine,
    saved: Seq<RustType>,
    capture_slots: Seq<Option<SlotModel>>,
    saved_slots: Seq<Option<SlotModel>>,
    places: Seq<SavedPlace>,
    from: nat,
    code: CodeModel,
    defs: DefinitionsModel,
    classes: Map<Text, Seq<Text>>,
)
    requires
        carrier_fits(coroutine, saved, capture_slots, saved_slots, classes),
        holds_plain_values(coroutine, saved, defs, classes),
    ensures
        ({
            let made = places_stored(
                places,
                saved,
                saved_slots,
                coroutine.class_name@,
                variable("_1"@, class(coroutine.class_name@)),
                storage_at_start("_bytes"@, "_objects"@),
                from,
                code,
                defs,
            );
            made.1 == defs && made.2 is Ok
        }),
    decreases places.len() - from,
{
    if from < places.len() {
        let item = places[from as int];
        let class_name = coroutine.class_name@;
        let storage = storage_at_start("_bytes"@, "_objects"@);
        let source = variable("_1"@, class(class_name));
        if item.index < saved.len() {
            assert(slot_at(saved_slots, item.index) == saved_slots[item.index as int]);
        }
        if is_place(saved, item) && !is_dynamic(saved[item.index as int]) {
            let ty = saved[item.index as int];
            let slot = saved_slots[item.index as int]->0;
            let (taken, dest) = fresh(code, "union_aggregate_field"@);
            let code1 = emit(taken, reads_field(dest, source, slot.name, slot.ty, class_name));
            let operand = variable(dest, slot.ty);
            storing_can_be_made(ty, operand, storage, item.offset, code1, defs, classes);
            let one = stored(ty, operand, storage, item.offset, code1, defs);
            places_can_be_stored(
                coroutine,
                saved,
                capture_slots,
                saved_slots,
                places,
                from + 1,
                one.0,
                defs,
                classes,
            );
        } else {
            places_can_be_stored(
                coroutine,
                saved,
                capture_slots,
                saved_slots,
                places,
                from + 1,
                code,
                defs,
                classes,
            );
        }
    }
}

/// The blocks that store the states from one on are there, and the first block stays.
proof fn storing_block_is_there(
    coroutine: Coroutine,
    variants: Seq<CoroutineState>,
    saved: Seq<RustType>,
    capture_slots: Seq<Option<SlotModel>>,
    saved_slots: Seq<Option<SlotModel>>,
    from: nat,
    start: CodeModel,
    defs: DefinitionsModel,
    blocks: Map<Text, BasicBlockModel>,
    classes: Map<Text, Seq<Text>>,
    i: int,
)
    requires
        carrier_fits(coroutine, saved, capture_slots, saved_slots, classes),
        holds_plain_values(coroutine, saved, defs, classes),
        0 <= i < variants.len() <= usize::MAX,
        from <= variants.len(),
        blocks.contains_key("entry"@),
        i < from ==> blocks.contains_key(variant_label(i as usize))
            && blocks[variant_label(i as usize)].instructions == storing_of_state(
            coroutine,
            variants[i],
            saved,
            saved_slots,
            storing_code(coroutine, variants, saved, saved_slots, i as nat, start, defs),
            defs,
        ).instructions.push(returns_value(variable("_bytes"@, byte_array()))),
    ensures
        ({
            let (after, defs1, made, outcome) = states_stored(
                variants,
                saved,
                saved_slots,
                coroutine.class_name@,
                class(coroutine.class_name@),
                storage_at_start("_bytes"@, "_objects"@),
                from,
                storing_code(coroutine, variants, saved, saved_slots, from, start, defs),
                defs,
                blocks,
            );
            &&& outcome is Ok
            &&& defs1 == defs
            &&& after == storing_code(
                coroutine,
                variants,
                saved,
                saved_slots,
                variants.len(),
                start,
                defs,
            )
            &&& made.contains_key("entry"@)
            &&& made["entry"@] == blocks["entry"@]
            &&& made.contains_key(variant_label(i as usize))
            &&& made[variant_label(i as usize)].instructions == storing_of_state(
                coroutine,
                variants[i],
                saved,
                saved_slots,
                storing_code(coroutine, variants, saved, saved_slots, i as nat, start, defs),
                defs,
            ).instructions.push(returns_value(variable("_bytes"@, byte_array())))
        }),
    decreases variants.len() - from,
{
    if from < variants.len() {
        let item = variants[from as int];
        let code = storing_code(coroutine, variants, saved, saved_slots, from, start, defs);
        places_can_be_stored(
            coroutine,
            saved,
            capture_slots,
            saved_slots,
            item.places@,
            0,
            code,
            defs,
            classes,
        );
        let done = storing_of_state(coroutine, item, saved, saved_slots, code, defs);
        let list = done.instructions.push(returns_value(variable("_bytes"@, byte_array())));
        let label = variant_label(from as usize);
        let more = block_put(label, list, blocks);
        if i != from && variant_label(i as usize) == label {
            variant_labels_differ(i as usize, from as usize);
        }
        reveal_strlit("entry");
        reveal_strlit("variant_");
        assert(label[0] == 'v');
        assert("entry"@[0] == 'e');
        storing_block_is_there(
            coroutine,
            variants,
            saved,
            capture_slots,
            saved_slots,
            from + 1,
            start,
            defs,
            more,
            classes,
            i,
        );
    }
}

/// The code of the first block of a decoder before its switch.
pub open spec fn decoder_entry(place: StatePlace, size: usize, code: CodeModel) -> CodeModel {
    let (loaded_state, state) = loaded_bits(
        Type::I32,
        place.size as nat,
        storage_at_start("_1"@, "_objects"@),
        place.offset,
        emit(
            code,
            makes_array("_objects"@, object_class(), i32_value(small_number(at_least_one(size)))),
        ),
    );
    emit(loaded_state, copies("_coroutine_state"@, state))
}

/// What the block that loads a state does.
pub open spec fn loading_of_state(
    coroutine: Coroutine,
    state: CoroutineState,
    capture_slots: Seq<Option<SlotModel>>,
    saved_slots: Seq<Option<SlotModel>>,
    code: CodeModel,
    defs: DefinitionsModel,
) -> CodeModel {
    state_loaded(
        coroutine,
        state,
        capture_slots,
        saved_slots,
        class(coroutine.class_name@),
        storage_at_start("_1"@, "_objects"@),
        code,
        defs,
    ).0
}

/// The code at the point where the block that loads a state begins.
pub open spec fn loading_code(
    coroutine: Coroutine,
    variants: Seq<CoroutineState>,
    capture_slots: Seq<Option<SlotModel>>,
    saved_slots: Seq<Option<SlotModel>>,
    i: nat,
    code: CodeModel,
    defs: DefinitionsModel,
) -> CodeModel
    decreases i,
{
    if i == 0 {
        code
    } else {
        let before = loading_code(
            coroutine,
            variants,
            capture_slots,
            saved_slots,
            (i - 1) as nat,
            code,
            defs,
        );
        empty_code(
            loading_of_state(
                coroutine,
                variants[i - 1],
                capture_slots,
                saved_slots,
                before,
                defs,
            ).temps,
        )
    }
}

/// The code that loads what a coroutine captured can always be made.
proof fn captures_can_be_loaded(
    coroutine: Coroutine,
    saved: Seq<RustType>,
    capture_slots: Seq<Option<SlotModel>>,
    saved_slots: Seq<Option<SlotModel>>,
    from: nat,
    code: CodeModel,
    defs: DefinitionsModel,
    values: Seq<(OperandModel, TypeModel)>,
    classes: Map<Text, Seq<Text>>,
)
    requires
        carrier_fits(coroutine, saved, capture_slots, saved_slots, classes),
        holds_plain_values(coroutine, saved, defs, classes),
    ensures
        ({
            let made = loaded_fields(
                coroutine.captures@,
                capture_slots,
                storage_at_start("_1"@, "_objects"@),
                0,
                from,
                code,
                defs,
                values,
            );
            made.1 == defs && made.3 is Ok
        }),
    decreases coroutine.captures@.len() - from,
{
    let captures = coroutine.captures@;
    let storage = storage_at_start("_1"@, "_objects"@);
    if from < captures.len() {
        let item = captures[from as int];
        assert(slot_at(capture_slots, from as usize) == capture_slots[from as int]);
        if is_valued(item) {
            let ty = lowered(item.ty);
            let offset = offset_sum(0, item.offset);
            loading_can_be_made(item.ty, storage, offset, code, defs, classes);
            let one = loaded(item.ty, storage, offset, code, defs);
            let more = if is_dynamic(item.ty) {
                value_appended(default_value(ty), ty, values)
            } else {
                value_appended(one.2->Ok_0, ty, values)
            };
            let after = if is_dynamic(item.ty) {
                code
            } else {
                one.0
            };
            captures_can_be_loaded(
                coroutine,
                saved,
                capture_slots,
                saved_slots,
                from + 1,
                after,
                defs,
                more,
                classes,
            );
        } else {
            captures_can_be_loaded(
                coroutine,
                saved,
                capture_slots,
                saved_slots,
                from + 1,
                code,
                defs,
                values,
                classes,
            );
        }
    }
}

/// The code that loads the saved values of a state can always be made.
proof fn saved_values_can_be_loaded(
    coroutine: Coroutine,
    saved: Seq<RustType>,
    capture_slots: Seq<Option<SlotModel>>,
    saved_slots: Seq<Option<SlotModel>>,
    places: Seq<SavedPlace>,
    from: nat,
    code: CodeModel,
    defs: DefinitionsModel,
    values: Seq<(OperandModel, TypeModel)>,
    classes: Map<Text, Seq<Text>>,
)
    requires
        carrier_fits(coroutine, saved, capture_slots, saved_slots, classes),
        holds_plain_values(coroutine, saved, defs, classes),
    ensures
        ({
            let made = saved_loaded(
                saved,
                saved_slots,
                places,
                storage_at_start("_1"@, "_objects"@),
                from,
                code,
                defs,
                values,
            );
            made.1 == defs && made.3 is Ok
        }),
    decreases saved.len() - from,
{
    let storage = storage_at_start("_1"@, "_objects"@);
    if from < saved.len() {
        let item = saved[from as int];
        let ty = lowered(item);
        assert(slot_at(saved_slots, from as usize) == saved_slots[from as int]);
        if has_value(ty) {
            match place_of(places, from as usize) {
                None => {
                    saved_values_can_be_loaded(
                        coroutine,
                        saved,
                        capture_slots,
                        saved_slots,
                        places,
                        from + 1,
                        code,
                        defs,
                        value_appended(default_value(ty), ty, values),
                        classes,
                    );
                },
                Some(offset) => {
                    loading_can_be_made(item, storage, offset, code, defs, classes);
                    let one = loaded(item, storage, offset, code, defs);
                    saved_values_can_be_loaded(
                        coroutine,
                        saved,
                        capture_slots,
                        saved_slots,
                        places,
                        from + 1,
                        one.0,
                        defs,
                        value_appended(one.2->Ok_0, ty, values),
                        classes,
                    );
                },
            }
        } else {
            saved_values_can_be_loaded(
                coroutine,
                saved,
                capture_slots,
                saved_slots,
                places,
                from + 1,
                code,
                defs,
                values,
                classes,
            );
        }
    }
}

/// The code that loads a coroutine in a state can always be made.
proof fn state_can_be_loaded(
    coroutine: Coroutine,
    saved: Seq<RustType>,
    capture_slots: Seq<Option<SlotModel>>,
    saved_slots: Seq<Option<SlotModel>>,
    state: CoroutineState,
    code: CodeModel,
    defs: DefinitionsModel,
    classes: Map<Text, Seq<Text>>,
)
    requires
        carrier_fits(coroutine, saved, capture_slots, saved_slots, classes),
        holds_plain_values(coroutine, saved, defs, classes),
        coroutine.layout matches Ok(layout) && layout.saved@ == saved,
    ensures
        ({
            let made = state_loaded(
                coroutine,
                state,
                capture_slots,
                saved_slots,
                class(coroutine.class_name@),
                storage_at_start("_1"@, "_objects"@),
                code,
                defs,
            );
            made.1 == defs && made.2 is Ok
        }),
{
    let storage = storage_at_start("_1"@, "_objects"@);
    captures_can_be_loaded(
        coroutine,
        saved,
        capture_slots,
        saved_slots,
        0,
        code,
        defs,
        typed0(),
        classes,
    );
    let one = loaded_fields(
        coroutine.captures@,
        capture_slots,
        storage,
        0,
        0,
        code,
        defs,
        typed0(),
    );
    let more = value_appended(variable("_coroutine_state"@, Type::I32), Type::I32, one.2);
    saved_values_can_be_loaded(
        coroutine,
        saved,
        capture_slots,
        saved_slots,
        state.places@,
        0,
        one.0,
        defs,
        more,
        classes,
    );
}

/// The blocks that load the states from one on are there, and the first block stays.
#[verifier::rlimit(40)]
proof fn loading_block_is_there(
    coroutine: Coroutine,
    variants: Seq<CoroutineState>,
    saved: Seq<RustType>,
    capture_slots: Seq<Option<SlotModel>>,
    saved_slots: Seq<Option<SlotModel>>,
    from: nat,
    start: CodeModel,
    defs: DefinitionsModel,
    blocks: Map<Text, BasicBlockModel>,
    classes: Map<Text, Seq<Text>>,
    i: int,
)
    requires
        carrier_fits(coroutine, saved, capture_slots, saved_slots, classes),
        holds_plain_values(coroutine, saved, defs, classes),
        coroutine.layout matches Ok(layout) && layout.saved@ == saved,
        0 <= i < variants.len() <= usize::MAX,
        from <= variants.len(),
        blocks.contains_key("entry"@),
        i < from ==> blocks.contains_key(variant_label(i as usize))
            && blocks[variant_label(i as usize)].instructions == loading_of_state(
            coroutine,
            variants[i],
            capture_slots,
            saved_slots,
            loading_code(coroutine, variants, capture_slots, saved_slots, i as nat, start, defs),
            defs,
        ).instructions,
    ensures
        ({
            let (after, defs1, made, outcome) = states_loaded(
                coroutine,
                variants,
                capture_slots,
                saved_slots,
                class(coroutine.class_name@),
                storage_at_start("_1"@, "_objects"@),
                from,
                loading_code(coroutine, variants, capture_slots, saved_slots, from, start, defs),
                defs,
                blocks,
            );
            &&& outcome is Ok
            &&& defs1 == defs
            &&& made.contains_key("entry"@)
            &&& made["entry"@] == blocks["entry"@]
            &&& made.contains_key(variant_label(i as usize))
            &&& made[variant_label(i as usize)].instructions == loading_of_state(
                coroutine,
                variants[i],
                capture_slots,
                saved_slots,
                loading_code(
                    coroutine,
                    variants,
                    capture_slots,
                    saved_slots,
                    i as nat,
                    start,
                    defs,
                ),
                defs,
            ).instructions
        }),
    decreases variants.len() - from,
{
    if from < variants.len() {
        let item = variants[from as int];
        let code = loading_code(
            coroutine,
            variants,
            capture_slots,
            saved_slots,
            from,
            start,
            defs,
        );
        state_can_be_loaded(
            coroutine,
            saved,
            capture_slots,
            saved_slots,
            item,
            code,
            defs,
            classes,
        );
        let done = loading_of_state(coroutine, item, capture_slots, saved_slots, code, defs);
        let label = variant_label(from as usize);
        let more = block_put(label, done.instructions, blocks);
        if i != from && variant_label(i as usize) == label {
            variant_labels_differ(i as usize, from as usize);
        }
        reveal_strlit("entry");
        reveal_strlit("variant_");
        assert(label[0] == 'v');
        assert("entry"@[0] == 'e');
        loading_block_is_there(
            coroutine,
            variants,
            saved,
            capture_slots,
            saved_slots,
            from + 1,
            start,
            defs,
            more,
            classes,
            i,
        );
    }
}

/// The first block of an encoder puts what the coroutine captured and the number of its state into
/// a new array.
proof fn encoder_starts(
    coroutine: Coroutine,
    saved: Seq<RustType>,
    capture_slots: Seq<Option<SlotModel>>,
    saved_slots: Seq<Option<SlotModel>>,
    place: StatePlace,
    size: usize,
    value: Value,
    state: u64,
    defs: DefinitionsModel,
    m: Machine,
) -> (n: Machine)
    requires
        carrier_fits(coroutine, saved, capture_slots, saved_slots, m.classes),
        is_carried(coroutine, value, m.classes),
        value->parts[state_rank(coroutine) as int] == (Value::Number { bits: state }),
        lie_inside(
            capture_pieces(coroutine.captures@, value->parts, coroutine.captures@.len()),
            size,
            defs,
            m.classes,
        ),
        place.size <= 4,
        place.offset + place.size <= size <= i32::MAX,
        m.objects.contains_key("_1"@),
        m.objects["_1"@] == value,
        temps_needed_from(coroutine.captures@, 0) + 16 <= usize::MAX,
    ensures
        ({
            let captures = coroutine.captures@;
            let code = empty_code(0);
            let arrays = emit(
                emit(code, makes_array("_bytes"@, Type::I8, i32_value(small_number(size)))),
                makes_array(
                    "_objects"@,
                    object_class(),
                    i32_value(small_number(at_least_one(size))),
                ),
            );
            let captured = stored_fields(
                captures,
                capture_slots,
                coroutine.class_name@,
                variable("_1"@, class(coroutine.class_name@)),
                storage_at_start("_bytes"@, "_objects"@),
                0,
                0,
                arrays,
                defs,
            );
            let after = encoder_entry(coroutine, place, size, capture_slots, code, defs);
            let zeros = Seq::new(size as nat, |i: int| 0u8);
            &&& captured.1 == defs
            &&& captured.2 is Ok
            &&& executed(m, after.instructions, 0) == Some(n)
            &&& n.arrays.contains_key("_bytes"@)
            &&& n.arrays["_bytes"@] == with_number(
                laid(capture_pieces(captures, value->parts, captures.len()), zeros),
                place.offset as int,
                state,
                place.size as int,
            )
            &&& n.arrays["_bytes"@].len() == size
            &&& n.classes == m.classes
            &&& n.objects.contains_key("_1"@)
            &&& n.objects["_1"@] == value
            &&& value_of(n, variable("_coroutine_state"@, Type::I32)) == Some(state)
        }),
{
    reveal_strlit("_1");
    reveal_strlit("_coroutine_state");
    let captures = coroutine.captures@;
    let class_name = coroutine.class_name@;
    let code0 = empty_code(0);
    let first = makes_array("_bytes"@, Type::I8, i32_value(small_number(size)));
    let second = makes_array(
        "_objects"@,
        object_class(),
        i32_value(small_number(at_least_one(size))),
    );
    let code1 = emit(code0, first);
    let code2 = emit(code1, second);
    let zeros = Seq::new(size as nat, |i: int| 0u8);
    let m1 = array_made(m, "_bytes"@, Type::I8, size as u64);
    one_more_step(m, code0, 0, first);
    one_more_step(m, code1, 0, second);
    assert(executed(m, code2.instructions, 0) == Some(m1));
    assert(m1.arrays["_bytes"@] =~= zeros);
    let m2 = captures_are_stored(
        coroutine,
        saved,
        capture_slots,
        saved_slots,
        size,
        value,
        zeros,
        0,
        code2,
        defs,
        m,
        m1,
    );
    let source = variable("_1"@, class(class_name));
    let storage = storage_at_start("_bytes"@, "_objects"@);
    let code3 = stored_fields(
        captures,
        capture_slots,
        class_name,
        source,
        storage,
        0,
        0,
        code2,
        defs,
    ).0;
    let third = reads_field("_coroutine_state"@, source, "__state"@, Type::I32, class_name);
    let code4 = emit(code3, third);
    field_of_carrier(
        coroutine,
        saved,
        capture_slots,
        saved_slots,
        value,
        m2,
        state_rank(coroutine) as int,
    );
    one_more_step(m, code3, 0, third);
    let m3 = assigned(m2, "_coroutine_state"@, state);
    assert(executed(m, code4.instructions, 0) == Some(m3));
    let state_operand = variable("_coroutine_state"@, Type::<Text>::I32);
    words_are_settled("_coroutine_state"@, code4.temps);
    short_names_are_settled("_1"@, code4.temps);
    let n = bits_are_stored(
        state_operand,
        Type::I32,
        place.size as nat,
        storage,
        place.offset,
        code4,
        0,
        m,
        m3,
        0,
        state,
    );
    value_is_kept(m3, n, code4.temps, state_operand);
    classes_are_kept(m3, n, code4.temps);
    reveal(kept);
    n
}

/// The first block of a decoder reads the number of the state.
proof fn decoder_starts(
    place: StatePlace,
    size: usize,
    state: u64,
    code: CodeModel,
    m: Machine,
) -> (n: Machine)
    requires
        code.instructions.len() == 0,
        place.size <= 4,
        place.offset + place.size <= size,
        m.arrays.contains_key("_1"@),
        size <= m.arrays["_1"@].len() <= i32::MAX,
        narrowed(
            Type::I32,
            number_at(m.arrays["_1"@], place.offset as int, place.size as nat),
        ) == state,
        code.temps + 24 <= usize::MAX,
    ensures
        executed(m, decoder_entry(place, size, code).instructions, 0) == Some(n),
        n.arrays == m.arrays,
        n.classes == m.classes,
        value_of(n, variable("_coroutine_state"@, Type::I32)) == Some(state),
{
    let storage = storage_at_start("_1"@, "_objects"@);
    let first = makes_array(
        "_objects"@,
        object_class(),
        i32_value(small_number(at_least_one(size))),
    );
    let code1 = emit(code, first);
    one_more_step(m, code, 0, first);
    assert(executed(m, code1.instructions, 0) == Some(m));
    let n1 = bits_are_loaded(
        Type::I32,
        place.size as nat,
        storage,
        place.offset,
        code1,
        0,
        m,
        m,
        0,
    );
    let (code2, operand) = loaded_bits(
        Type::I32,
        place.size as nat,
        storage,
        place.offset,
        code1,
    );
    let last = copies("_coroutine_state"@, operand);
    one_more_step(m, code2, 0, last);
    classes_are_kept(m, n1, code1.temps);
    assigned(n1, "_coroutine_state"@, state)
}

/// The block that loads a state hands the parts of the coroutine over to its constructor.
proof fn state_is_loaded(
    coroutine: Coroutine,
    saved: Seq<RustType>,
    capture_slots: Seq<Option<SlotModel>>,
    saved_slots: Seq<Option<SlotModel>>,
    size: usize,
    state: CoroutineState,
    value: Value,
    code: CodeModel,
    defs: DefinitionsModel,
    m: Machine,
) -> (r: (Machine, Seq<(OperandModel, TypeModel)>))
    requires
        carrier_fits(coroutine, saved, capture_slots, saved_slots, m.classes),
        is_carried(coroutine, value, m.classes),
        coroutine.layout matches Ok(layout) && layout.saved@ == saved,
        value->parts[state_rank(coroutine) as int] is Number,
        value_of(m, variable("_coroutine_state"@, Type::I32)) == Some(
            value->parts[state_rank(coroutine) as int]->bits,
        ),
        lie_inside(
            capture_pieces(coroutine.captures@, value->parts, coroutine.captures@.len()),
            size,
            defs,
            m.classes,
        ),
        lie_inside(
            place_pieces(
                coroutine,
                saved,
                state.places@,
                value->parts,
                state.places@.len(),
            ),
            size,
            defs,
            m.classes,
        ),
        code.instructions.len() == 0,
        m.arrays.contains_key("_1"@),
        size <= m.arrays["_1"@].len() <= i32::MAX,
        pieces_show(
            capture_pieces(coroutine.captures@, value->parts, coroutine.captures@.len()),
            m.arrays["_1"@],
        ),
        pieces_show(
            place_pieces(
                coroutine,
                saved,
                state.places@,
                value->parts,
                state.places@.len(),
            ),
            m.arrays["_1"@],
        ),
        code.temps + temps_needed_from(coroutine.captures@, 0) + saved_temps(saved, 0)
            <= usize::MAX,
    ensures
        ({
            let class_name = coroutine.class_name@;
            let list = loading_of_state(
                coroutine,
                state,
                capture_slots,
                saved_slots,
                code,
                defs,
            ).instructions;
            &&& list.len() > 1
            &&& executed(m, list.drop_last().drop_last(), 0) == Some(r.0)
            &&& list[list.len() - 2] == makes_object("_coroutine_value"@, class_name, r.1)
            &&& list.last() == returns_value(variable("_coroutine_value"@, class(class_name)))
            &&& hand_over(
                r.0,
                r.1,
                coroutine,
                saved,
                state.places@,
                value->parts,
                saved.len(),
            )
        }),
{
    reveal_strlit("_coroutine_state");
    let parts = value->parts;
    let storage = storage_at_start("_1"@, "_objects"@);
    assert(code.instructions =~= Seq::empty());
    let m1 = captures_are_loaded(
        coroutine,
        saved,
        capture_slots,
        saved_slots,
        size,
        value,
        0,
        code,
        defs,
        typed0(),
        m,
        m,
    );
    let one = loaded_fields(
        coroutine.captures@,
        capture_slots,
        storage,
        0,
        0,
        code,
        defs,
        typed0(),
    );
    let code1 = one.0;
    let operand = variable("_coroutine_state"@, Type::<Text>::I32);
    words_are_settled("_coroutine_state"@, code.temps);
    words_are_settled("_coroutine_state"@, code1.temps);
    value_is_kept(m, m1, code.temps, operand);
    let values = value_appended(operand, Type::I32, one.2);
    assert forall|k: int| 0 <= k < values.len() implies is_settled(
        (#[trigger] values[k]).0,
        code1.temps,
    ) && full_value(m1, values[k].0) == Some(parts[k]) by {
        if k < one.2.len() {
            assert(values[k] == one.2[k]);
        }
    }
    let n = saved_values_are_loaded(
        coroutine,
        saved,
        capture_slots,
        saved_slots,
        size,
        state.places@,
        value,
        0,
        code1,
        defs,
        values,
        m,
        m1,
    );
    let two = saved_loaded(
        saved,
        saved_slots,
        state.places@,
        storage,
        0,
        code1,
        defs,
        values,
    );
    let class_name = coroutine.class_name@;
    let list = loading_of_state(
        coroutine,
        state,
        capture_slots,
        saved_slots,
        code,
        defs,
    ).instructions;
    let made = makes_object("_coroutine_value"@, class_name, two.2);
    let last = returns_value(variable("_coroutine_value"@, class(class_name)));
    assert(list == two.0.instructions.push(made).push(last));
    assert(list.drop_last() =~= two.0.instructions.push(made));
    assert(list.drop_last().drop_last() =~= two.0.instructions);
    (n, two.2)
}

/// The bytes that an encoder returns.
pub open spec fn encoded_bytes(m: Machine, body: CodeBlockModel) -> Option<Seq<u8>> {
    match leads_to(m, body) {
        None => None,
        Some((n, label)) => {
            let list = body.basic_blocks[label].instructions;
            if !body.basic_blocks.contains_key(label) || list.len() == 0 {
                None
            } else {
                match (executed(n, list.drop_last(), 0), list.last()) {
                    (
                        Some(last),
                        InstructionModel::Return { operand: Some(Operand::Variable { name, .. }) },
                    ) => if last.arrays.contains_key(name) {
                        Some(last.arrays[name])
                    } else {
                        None
                    },
                    _ => None,
                }
            }
        },
    }
}

/// The class of the object that a decoder returns, the arguments of its constructor, and the point
/// at which it is called.
pub open spec fn constructed(m: Machine, body: CodeBlockModel) -> Option<
    (Machine, Text, Seq<(OperandModel, TypeModel)>),
> {
    match leads_to(m, body) {
        None => None,
        Some((n, label)) => {
            let list = body.basic_blocks[label].instructions;
            if !body.basic_blocks.contains_key(label) || list.len() < 2 {
                None
            } else {
                match (
                    executed(n, list.drop_last().drop_last(), 0),
                    list[list.len() - 2],
                    list.last(),
                ) {
                    (
                        Some(last),
                        InstructionModel::ConstructObject { dest, class_name, args },
                        InstructionModel::Return { operand: Some(Operand::Variable { name, .. }) },
                    ) => if name == dest {
                        Some((last, class_name, args))
                    } else {
                        None
                    },
                    _ => None,
                }
            }
        },
    }
}

/// Whether everything is defined that a coroutine captured and saves.
pub open spec fn parts_are_defined(
    coroutine: Coroutine,
    saved: Seq<RustType>,
    defs: DefinitionsModel,
) -> bool {
    let class_name = coroutine.class_name@;
    let captures = coroutine.captures@;
    &&& undeclared_defined(
        captures,
        undeclared_fields(SlotNames::Captures, class_name, captures, defs),
        0,
        defs,
    ) == defs
    &&& undeclared_saved_defined(saved, undeclared_saved(class_name, saved, defs), 0, defs) == defs
}

/// Whether a value is a coroutine in a state, whose parts are defined and plain, stand in the
/// fields of its
/// class, and lie apart inside its bytes, as does the number of the state.
#[verifier::opaque]
pub open spec fn is_parked(
    coroutine: Coroutine,
    layout: CoroutineLayout,
    place: StatePlace,
    i: int,
    size: usize,
    value: Value,
    defs: DefinitionsModel,
    classes: Map<Text, Seq<Text>>,
) -> bool {
    let captures = coroutine.captures@;
    let saved = layout.saved@;
    let places = layout.variants@[i].places@;
    let captured = capture_pieces(captures, value->parts, captures.len());
    let held = place_pieces(coroutine, saved, places, value->parts, places.len());
    &&& 0 <= i < layout.variants@.len() <= i32::MAX
    &&& carrier_fits(
        coroutine,
        saved,
        slots_of_fields(SlotNames::Captures, coroutine.class_name@, captures, defs),
        slots_of_saved(coroutine.class_name@, saved, defs),
        classes,
    )
    &&& parts_are_defined(coroutine, saved, defs)
    &&& holds_plain_values(coroutine, saved, defs, classes)
    &&& is_carried(coroutine, value, classes)
    &&& value->parts[state_rank(coroutine) as int] == (Value::Number { bits: i as u64 })
    &&& place.size == 1 || place.size == 2 || place.size == 4
    &&& i < values_of_size(place.size as nat)
    &&& place.offset + place.size <= size <= i32::MAX
    &&& lie_inside(captured, size, defs, classes)
    &&& lie_inside(held, size, defs, classes)
    &&& lie_apart(captured)
    &&& lie_apart(held)
    &&& are_clear_of(captured, held)
    &&& forall|k: int|
        0 <= k < captured.len() ==> is_apart_from(
            #[trigger] captured[k],
            place.offset,
            place.size,
        )
    &&& forall|k: int|
        0 <= k < held.len() ==> is_apart_from(#[trigger] held[k], place.offset, place.size)
}

/// The bytes of a coroutine in a state.
pub open spec fn bytes_in_state(
    coroutine: Coroutine,
    layout: CoroutineLayout,
    place: StatePlace,
    i: int,
    size: usize,
    value: Value,
) -> Seq<u8> {
    let captures = coroutine.captures@;
    let places = layout.variants@[i].places@;
    laid(
        place_pieces(coroutine, layout.saved@, places, value->parts, places.len()),
        with_number(
            laid(
                capture_pieces(captures, value->parts, captures.len()),
                Seq::new(size as nat, |i: int| 0u8),
            ),
            place.offset as int,
            i as u64,
            place.size as int,
        ),
    )
}

/// The bytes of a coroutine show its parts and the number of its state.
proof fn bytes_show_the_state(
    coroutine: Coroutine,
    layout: CoroutineLayout,
    place: StatePlace,
    i: int,
    size: usize,
    value: Value,
    defs: DefinitionsModel,
    classes: Map<Text, Seq<Text>>,
)
    requires
        is_parked(coroutine, layout, place, i, size, value, defs, classes),
    ensures
        ({
            let captures = coroutine.captures@;
            let saved = layout.saved@;
            let places = layout.variants@[i].places@;
            let bytes = bytes_in_state(coroutine, layout, place, i, size, value);
            &&& bytes.len() == size
            &&& pieces_show(capture_pieces(captures, value->parts, captures.len()), bytes)
            &&& pieces_show(
                place_pieces(coroutine, saved, places, value->parts, places.len()),
                bytes,
            )
            &&& number_at(bytes, place.offset as int, place.size as nat) == i as u64
        }),
{
    reveal(is_parked);
    let captures = coroutine.captures@;
    let saved = layout.saved@;
    let places = layout.variants@[i].places@;
    let captured = capture_pieces(captures, value->parts, captures.len());
    let held = place_pieces(coroutine, saved, places, value->parts, places.len());
    let zeros = Seq::new(size as nat, |i: int| 0u8);
    let first = laid(captured, zeros);
    let at = place.offset as int;
    let second = with_number(first, at, i as u64, place.size as int);
    let bytes = laid(held, second);
    laid_pieces_show(captured, zeros, size, defs, classes);
    laid_pieces_show(held, second, size, defs, classes);
    state_is_a_number(i as u64, place.size);
    number_is_put_together(first, at, i as u64, place.size as nat);
    laying_is_local(held, second, size, place.offset, place.size, defs, classes);
    number_is_local(second, bytes, at, place.size as nat);
    assert forall|k: int| 0 <= k < captured.len() implies shows(
        (#[trigger] captured[k]).ty,
        captured[k].value,
        bytes,
        captured[k].offset as int,
    ) by {
        let item = captured[k];
        let length = bytes_of(item.ty);
        assert forall|j: int| 0 <= j < held.len() implies is_apart_from(
            #[trigger] held[j],
            item.offset,
            length,
        ) by {
            assert(is_apart_from(captured[k], held[j].offset, bytes_of(held[j].ty)));
        }
        laying_is_local(held, second, size, item.offset, length, defs, classes);
        assert(agree(first, bytes, item.offset as int, item.offset + length)) by {
            assert forall|x: int| item.offset <= x < item.offset + length
                implies #[trigger] first[x]
                == bytes[x] by {
                assert(second[x] == bytes[x]);
            }
        }
        showing_is_local(
            item.ty,
            item.value,
            first,
            bytes,
            item.offset as int,
            defs,
            classes,
        );
    }
}

/// The code at the point where the blocks of an encoder begin that store its states.
pub open spec fn encoder_states(
    coroutine: Coroutine,
    place: StatePlace,
    size: usize,
    defs: DefinitionsModel,
) -> CodeModel {
    let slots = slots_of_fields(
        SlotNames::Captures,
        coroutine.class_name@,
        coroutine.captures@,
        defs,
    );
    empty_code(encoder_entry(coroutine, place, size, slots, empty_code(0), defs).temps)
}

/// The code at the point where the block of an encoder begins that stores a state.
pub open spec fn encoder_state(
    coroutine: Coroutine,
    layout: CoroutineLayout,
    place: StatePlace,
    i: nat,
    size: usize,
    defs: DefinitionsModel,
) -> CodeModel {
    storing_code(
        coroutine,
        layout.variants@,
        layout.saved@,
        slots_of_saved(coroutine.class_name@, layout.saved@, defs),
        i,
        encoder_states(coroutine, place, size, defs),
        defs,
    )
}

/// The code at the point where the block of a decoder begins that loads a state.
pub open spec fn decoder_state(
    coroutine: Coroutine,
    layout: CoroutineLayout,
    place: StatePlace,
    i: nat,
    size: usize,
    defs: DefinitionsModel,
) -> CodeModel {
    let code = encoder_state(coroutine, layout, place, layout.variants@.len(), size, defs);
    loading_code(
        coroutine,
        layout.variants@,
        slots_of_fields(
            SlotNames::Captures,
            coroutine.class_name@,
            coroutine.captures@,
            defs,
        ),
        slots_of_saved(coroutine.class_name@, layout.saved@, defs),
        i,
        empty_code(decoder_entry(place, size, code).temps),
        defs,
    )
}

/// Whether the numbers of temporaries are enough for the code of a state.
#[verifier::opaque]
pub open spec fn has_enough_temps(
    coroutine: Coroutine,
    layout: CoroutineLayout,
    place: StatePlace,
    i: nat,
    size: usize,
    defs: DefinitionsModel,
) -> bool {
    let captures = coroutine.captures@;
    let saved = layout.saved@;
    let places = layout.variants@[i as int].places@;
    &&& temps_needed_from(captures, 0) + 16 <= usize::MAX
    &&& encoder_state(coroutine, layout, place, i, size, defs).temps + place_temps(
        saved,
        places,
        0,
    ) <= usize::MAX
    &&& encoder_state(coroutine, layout, place, layout.variants@.len(), size, defs).temps + 24
        <= usize::MAX
    &&& decoder_state(coroutine, layout, place, i, size, defs).temps + temps_needed_from(
        captures,
        0,
    ) + saved_temps(saved, 0) <= usize::MAX
}

/// The encoder of a coroutine, as the codec makes it.
#[verifier::opaque]
pub open spec fn encoder_made(
    coroutine: Coroutine,
    layout: CoroutineLayout,
    place: StatePlace,
    size: usize,
    defs: DefinitionsModel,
) -> (CodeModel, DefinitionsModel, Result<FunctionModel, Text>) {
    let class_name = coroutine.class_name@;
    encoding_of(
        coroutine,
        place,
        size,
        slots_of_fields(SlotNames::Captures, class_name, coroutine.captures@, defs),
        slots_of_saved(class_name, layout.saved@, defs),
        class(class_name),
        empty_code(0),
        defs,
    )
}

/// The decoder of a coroutine, as the codec makes it behind its encoder.
#[verifier::opaque]
pub open spec fn decoder_made(
    coroutine: Coroutine,
    layout: CoroutineLayout,
    place: StatePlace,
    size: usize,
    defs: DefinitionsModel,
) -> (CodeModel, DefinitionsModel, Result<FunctionModel, Text>) {
    let class_name = coroutine.class_name@;
    let encoder = encoder_made(coroutine, layout, place, size, defs);
    decoding_of(
        coroutine,
        place,
        size,
        slots_of_fields(SlotNames::Captures, class_name, coroutine.captures@, defs),
        slots_of_saved(class_name, layout.saved@, defs),
        class(class_name),
        encoder.0,
        encoder.1,
    )
}

/// The encoder of a coroutine puts its bytes into an array.
proof fn coroutine_is_encoded(
    coroutine: Coroutine,
    layout: CoroutineLayout,
    place: StatePlace,
    i: int,
    size: usize,
    value: Value,
    defs: DefinitionsModel,
    m: Machine,
)
    requires
        coroutine.layout == Ok::<CoroutineLayout, String>(layout),
        is_parked(coroutine, layout, place, i, size, value, defs, m.classes),
        has_enough_temps(coroutine, layout, place, i as nat, size, defs),
        m.objects.contains_key("_1"@),
        m.objects["_1"@] == value,
    ensures
        ({
            let (code, defs1, outcome) = encoder_made(coroutine, layout, place, size, defs);
            &&& code == encoder_state(
                coroutine,
                layout,
                place,
                layout.variants@.len(),
                size,
                defs,
            )
            &&& defs1 == defs
            &&& outcome matches Ok(function)
            &&& encoded_bytes(m, function.body) == Some(
                bytes_in_state(coroutine, layout, place, i, size, value),
            )
        }),
{
    reveal(is_parked);
    reveal(has_enough_temps);
    reveal(state_switch);
    reveal(encoder_made);
    reveal_strlit("entry");
    reveal_strlit("invalid_state");
    assert("entry"@[0] == 'e' && "invalid_state"@[0] == 'i');
    let class_name = coroutine.class_name@;
    let saved = layout.saved@;
    let variants = layout.variants@;
    let places = variants[i].places@;
    let capture_slots = slots_of_fields(
        SlotNames::Captures,
        class_name,
        coroutine.captures@,
        defs,
    );
    let saved_slots = slots_of_saved(class_name, saved, defs);
    let m1 = encoder_starts(
        coroutine,
        saved,
        capture_slots,
        saved_slots,
        place,
        size,
        value,
        i as u64,
        defs,
        m,
    );
    let entry = encoder_entry(coroutine, place, size, capture_slots, empty_code(0), defs);
    let (start, blocks) = state_switch(variants, entry, no_blocks());
    assert(start == encoder_states(coroutine, place, size, defs));
    storing_block_is_there(
        coroutine,
        variants,
        saved,
        capture_slots,
        saved_slots,
        0,
        start,
        defs,
        blocks,
        m.classes,
        i,
    );
    let (code, defs1, outcome) = encoding_of(
        coroutine,
        place,
        size,
        capture_slots,
        saved_slots,
        class(class_name),
        empty_code(0),
        defs,
    );
    let body = outcome->Ok_0.body;
    let first = body.basic_blocks["entry"@].instructions;
    let state_operand = variable("_coroutine_state"@, Type::<Text>::I32);
    let last = switches(state_operand, state_targets(variants.len()), "invalid_state"@);
    assert(first == entry.instructions.push(last));
    assert(first.drop_last() =~= entry.instructions);
    state_is_chosen(m1, variants.len(), i as nat, 0, "invalid_state"@);
    let label = variant_label(i as usize);
    assert(leads_to(m, body) == Some((m1, label)));
    let before = encoder_state(coroutine, layout, place, i as nat, size, defs);
    assert(before.instructions =~= Seq::empty());
    let n = places_are_stored(
        coroutine,
        saved,
        capture_slots,
        saved_slots,
        size,
        places,
        value,
        m1.arrays["_bytes"@],
        0,
        before,
        defs,
        m1,
        m1,
    );
    let done = storing_of_state(coroutine, variants[i], saved, saved_slots, before, defs);
    let list = body.basic_blocks[label].instructions;
    assert(list.drop_last() =~= done.instructions);
}

/// The decoder of a coroutine hands the parts that its bytes show over to its constructor.
proof fn coroutine_is_decoded(
    coroutine: Coroutine,
    layout: CoroutineLayout,
    place: StatePlace,
    i: int,
    size: usize,
    value: Value,
    defs: DefinitionsModel,
    m: Machine,
)
    requires
        coroutine.layout == Ok::<CoroutineLayout, String>(layout),
        is_parked(coroutine, layout, place, i, size, value, defs, m.classes),
        has_enough_temps(coroutine, layout, place, i as nat, size, defs),
        m.arrays.contains_key("_1"@),
        m.arrays["_1"@] == bytes_in_state(coroutine, layout, place, i, size, value),
        encoder_made(coroutine, layout, place, size, defs).0 == encoder_state(
            coroutine,
            layout,
            place,
            layout.variants@.len(),
            size,
            defs,
        ),
        encoder_made(coroutine, layout, place, size, defs).1 == defs,
    ensures
        ({
            let (code, defs1, outcome) = decoder_made(coroutine, layout, place, size, defs);
            &&& defs1 == defs
            &&& outcome matches Ok(function)
            &&& constructed(m, function.body) matches Some((n, name, args))
            &&& name == coroutine.class_name@
            &&& hand_over(
                n,
                args,
                coroutine,
                layout.saved@,
                layout.variants@[i].places@,
                value->parts,
                layout.saved@.len(),
            )
        }),
{
    reveal(is_parked);
    reveal(has_enough_temps);
    reveal(state_switch);
    reveal(decoder_made);
    reveal_strlit("entry");
    reveal_strlit("invalid_state");
    assert("entry"@[0] == 'e' && "invalid_state"@[0] == 'i');
    let class_name = coroutine.class_name@;
    let saved = layout.saved@;
    let variants = layout.variants@;
    let capture_slots = slots_of_fields(
        SlotNames::Captures,
        class_name,
        coroutine.captures@,
        defs,
    );
    let saved_slots = slots_of_saved(class_name, saved, defs);
    bytes_show_the_state(coroutine, layout, place, i, size, value, defs, m.classes);
    state_is_a_number(i as u64, place.size);
    let code0 = encoder_state(coroutine, layout, place, variants.len(), size, defs);
    let m1 = decoder_starts(place, size, i as u64, code0, m);
    let entry = decoder_entry(place, size, code0);
    let (start, blocks) = state_switch(variants, entry, no_blocks());
    loading_block_is_there(
        coroutine,
        variants,
        saved,
        capture_slots,
        saved_slots,
        0,
        start,
        defs,
        blocks,
        m.classes,
        i,
    );
    let (code, defs1, outcome) = decoding_of(
        coroutine,
        place,
        size,
        capture_slots,
        saved_slots,
        class(class_name),
        code0,
        defs,
    );
    let body = outcome->Ok_0.body;
    let first = body.basic_blocks["entry"@].instructions;
    let state_operand = variable("_coroutine_state"@, Type::<Text>::I32);
    let last = switches(state_operand, state_targets(variants.len()), "invalid_state"@);
    assert(first == entry.instructions.push(last));
    assert(first.drop_last() =~= entry.instructions);
    state_is_chosen(m1, variants.len(), i as nat, 0, "invalid_state"@);
    let label = variant_label(i as usize);
    assert(leads_to(m, body) == Some((m1, label)));
    let before = decoder_state(coroutine, layout, place, i as nat, size, defs);
    let (n, args) = state_is_loaded(
        coroutine,
        saved,
        capture_slots,
        saved_slots,
        size,
        variants[i],
        value,
        before,
        defs,
        m1,
    );
    let list = body.basic_blocks[label].instructions;
    assert(list == loading_of_state(
        coroutine,
        variants[i],
        capture_slots,
        saved_slots,
        before,
        defs,
    ).instructions);
    assert(constructed(m, body) == Some((n, class_name, args)));
}

/// The methods of the codec of a coroutine, if they can be made.
#[verifier::opaque]
pub open spec fn methods_of_codec(
    ty: RustType,
    coroutine: Coroutine,
    size: usize,
    defs: DefinitionsModel,
) -> Option<Methods> {
    match coroutine_methods(ty, coroutine, size, defs, no_methods()) {
        (_, methods, Ok(_)) => Some(methods),
        _ => None,
    }
}

/// The methods of the codec of a coroutine are its encoder and its decoder, among others.
proof fn codec_has_both(
    ty: RustType,
    coroutine: Coroutine,
    layout: CoroutineLayout,
    place: StatePlace,
    size: usize,
    defs: DefinitionsModel,
)
    requires
        lowered(ty) == class(coroutine.class_name@),
        coroutine.layout == Ok::<CoroutineLayout, String>(layout),
        layout.state == Some(place),
        parts_are_defined(coroutine, layout.saved@, defs),
        methods_of_codec(ty, coroutine, size, defs) is Some,
        "encode"@ != "decode"@,
        "encode"@ != "bind"@,
        "decode"@ != "bind"@,
    ensures
        ({
            let methods = methods_of_codec(ty, coroutine, size, defs)->0;
            let encode = encoder_made(coroutine, layout, place, size, defs).2->Ok_0;
            let decode = decoder_made(coroutine, layout, place, size, defs).2->Ok_0;
            &&& methods.contains_key("encode"@)
            &&& methods["encode"@] == DataTypeMethodModel::Function(encode)
            &&& methods.contains_key("decode"@)
            &&& methods["decode"@] == DataTypeMethodModel::Function(decode)
        }),
{
    reveal(methods_of_codec);
    reveal(encoder_made);
    reveal(decoder_made);
}

/// The decoder of a coroutine makes the coroutine again whose bytes the encoder returned.
proof fn bytes_come_back(
    coroutine: Coroutine,
    layout: CoroutineLayout,
    place: StatePlace,
    i: int,
    size: usize,
    value: Value,
    defs: DefinitionsModel,
    m: Machine,
    q: Machine,
)
    requires
        coroutine.layout == Ok::<CoroutineLayout, String>(layout),
        is_parked(coroutine, layout, place, i, size, value, defs, m.classes),
        has_enough_temps(coroutine, layout, place, i as nat, size, defs),
        m.objects.contains_key("_1"@),
        m.objects["_1"@] == value,
        q.classes == m.classes,
        q.arrays.contains_key("_1"@),
        q.arrays["_1"@] == bytes_in_state(coroutine, layout, place, i, size, value),
    ensures
        ({
            let bytes = bytes_in_state(coroutine, layout, place, i, size, value);
            let encode = encoder_made(coroutine, layout, place, size, defs).2->Ok_0;
            let decode = decoder_made(coroutine, layout, place, size, defs).2->Ok_0;
            &&& bytes.len() == size
            &&& encoded_bytes(m, encode.body) == Some(bytes)
            &&& constructed(q, decode.body) matches Some((n, class_name, args))
            &&& class_name == coroutine.class_name@
            &&& hand_over(
                n,
                args,
                coroutine,
                layout.saved@,
                layout.variants@[i].places@,
                value->parts,
                layout.saved@.len(),
            )
        }),
{
    bytes_show_the_state(coroutine, layout, place, i, size, value, defs, m.classes);
    coroutine_is_encoded(coroutine, layout, place, i, size, value, defs, m);
    coroutine_is_decoded(coroutine, layout, place, i, size, value, defs, q);
}

/// The `encode` method of the codec of a coroutine puts what the coroutine captured, the number of
/// its state and what this state holds into an array; the `decode` method makes a coroutine of
/// these bytes again, with the same captures, the same state, the same value for everything that
/// the state holds, and defaults for the saved values that it does not hold. It holds of
/// coroutines of plain parts whose codec can be made.
pub proof fn coroutine_decodes_what_it_encodes(
    ty: RustType,
    coroutine: Coroutine,
    layout: CoroutineLayout,
    place: StatePlace,
    i: int,
    size: usize,
    value: Value,
    defs: DefinitionsModel,
    m: Machine,
    r: Machine,
) -> (bytes: Seq<u8>)
    requires
        ty.kind == TypeKind::Coroutine(coroutine),
        coroutine.layout == Ok::<CoroutineLayout, String>(layout),
        layout.state == Some(place),
        methods_of_codec(ty, coroutine, size, defs) is Some,
        is_parked(coroutine, layout, place, i, size, value, defs, m.classes),
        has_enough_temps(coroutine, layout, place, i as nat, size, defs),
        m.objects.contains_key("_1"@),
        m.objects["_1"@] == value,
        r.classes == m.classes,
    ensures
        ({
            let methods = methods_of_codec(ty, coroutine, size, defs)->0;
            let encode = methods["encode"@]->Function_0.body;
            let decode = methods["decode"@]->Function_0.body;
            let q = Machine { arrays: r.arrays.insert("_1"@, bytes), ..r };
            &&& methods.contains_key("encode"@)
            &&& methods.contains_key("decode"@)
            &&& bytes.len() == size
            &&& encoded_bytes(m, encode) == Some(bytes)
            &&& constructed(q, decode) matches Some((n, class_name, args))
            &&& class_name == coroutine.class_name@
            &&& hand_over(
                n,
                args,
                coroutine,
                layout.saved@,
                layout.variants@[i].places@,
                value->parts,
                layout.saved@.len(),
            )
        }),
{
    let bytes = bytes_in_state(coroutine, layout, place, i, size, value);
    let q = Machine { arrays: r.arrays.insert("_1"@, bytes), ..r };
    bytes_come_back(coroutine, layout, place, i, size, value, defs, m, q);
    assert(lowered(ty) == class(coroutine.class_name@)) by {
        reveal_with_fuel(lowered, 2);
    }
    assert("encode"@ != "decode"@ && "encode"@ != "bind"@ && "decode"@ != "bind"@) by {
        reveal_strlit("encode");
        reveal_strlit("decode");
        reveal_strlit("bind");
        assert("encode"@[0] == 'e' && "decode"@[0] == 'd' && "bind"@[0] == 'b');
    }
    assert(parts_are_defined(coroutine, layout.saved@, defs)) by {
        reveal(is_parked);
    }
    codec_has_both(ty, coroutine, layout, place, size, defs);
    bytes
}

} // verus!
