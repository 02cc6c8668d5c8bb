//! What the instructions do that hand variables on in a carrier.
use crate::carrier::{
    allocation, array_of, array_stores, arrays_of, has_slot, int_operand, is_carrier,
    lemma_slots_distinct, listed_by_kind, load, load_name, loads, slot_from, slot_of, store, stores,
    CarrierArrayModel, CATEGORIES, RESTORE_PREFIX,
};
use crate::chunks::is_marker;
use crate::execution::decimals_differ;
use crate::flow::{definition_of, VariableModel};
use crate::oomir::{has_value, InstructionModel, OperandModel, Text, TypeModel};
use crate::outline_run::{
    behind, callee, ends, exit_of, handler_behind, handles_carrier, holding, is_carrier_name,
    locals_on_entry, operand_value, outcome, position_of, put, seen, taken, Locals, Meaning,
    MethodTable, Outcome, Slots,
};
use crate::text::decimal_text;
use vstd::prelude::*;
use vstd::string::*;

verus! {

/// The variables and the slots behind instructions that handle a carrier.
pub open spec fn handled(
    m: Meaning,
    first: Seq<InstructionModel>,
    locals: Locals,
    slots: Slots,
) -> (Locals, Slots)
    decreases first.len(),
{
    if first.len() == 0 {
        (locals, slots)
    } else {
        let (l, s) = handled(m, first.drop_last(), locals, slots);
        (taken(m, first.last(), l, s), put(m, first.last(), l, s))
    }
}

/// Whether all instructions handle a carrier.
pub open spec fn all_handle_carrier(first: Seq<InstructionModel>) -> bool {
    forall|i: int| 0 <= i < first.len() ==> handles_carrier(#[trigger] first[i])
}

/// Instructions in front of others that handle a carrier are run first.
pub proof fn front_is_run(
    m: Meaning,
    methods: MethodTable,
    types: Map<Text, Seq<TypeModel>>,
    first: Seq<InstructionModel>,
    rest: Seq<InstructionModel>,
    n: nat,
    handler: Option<Text>,
    locals: Locals,
    slots: Slots,
    state: int,
    depth: nat,
)
    requires
        all_handle_carrier(first),
        n <= first.len(),
    ensures
        ({
            let (l, s) = handled(m, first.take(n as int), locals, slots);
            exit_of(m, methods, types, first + rest, 0, handler, locals, slots, state, depth)
                == exit_of(m, methods, types, first + rest, n, handler, l, s, state, depth)
        }),
    decreases n,
{
    if n > 0 {
        let less = (n - 1) as nat;
        front_is_run(m, methods, types, first, rest, less, handler, locals, slots, state, depth);
        assert(first.take(n as int).drop_last() =~= first.take(n - 1));
        assert(first.take(n as int).last() == first[n - 1]);
        assert((first + rest)[n - 1] == first[n - 1]);
        assert(handles_carrier(first[n - 1]));
    }
}

/// Instructions behind others run as they do alone.
pub proof fn rest_is_run(
    m: Meaning,
    methods: MethodTable,
    types: Map<Text, Seq<TypeModel>>,
    first: Seq<InstructionModel>,
    rest: Seq<InstructionModel>,
    at: nat,
    handler: Option<Text>,
    locals: Locals,
    slots: Slots,
    state: int,
    depth: nat,
)
    ensures
        exit_of(
            m,
            methods,
            types,
            first + rest,
            first.len() + at,
            handler,
            locals,
            slots,
            state,
            depth,
        ) == exit_of(m, methods, types, rest, at, handler, locals, slots, state, depth),
    decreases rest.len() - at,
{
    if at < rest.len() {
        let instruction = rest[at as int];
        assert((first + rest)[(first.len() + at) as int] == instruction);
        if !ends(instruction) {
            if is_marker(instruction) {
                let next = handler_behind(instruction, handler);
                rest_is_run(
                    m,
                    methods,
                    types,
                    first,
                    rest,
                    at + 1,
                    next,
                    locals,
                    slots,
                    state,
                    depth,
                );
            } else if handles_carrier(instruction) {
                let l = taken(m, instruction, locals, slots);
                let s = put(m, instruction, locals, slots);
                rest_is_run(m, methods, types, first, rest, at + 1, handler, l, s, state, depth);
            } else {
                let reached = match callee(methods, instruction) {
                    Some((function, args)) => {
                        let values = args.map_values(|a: OperandModel| operand_value(m, a, locals));
                        outcome(
                            m,
                            methods,
                            types,
                            function,
                            function.body.entry,
                            locals_on_entry(m, function, values),
                            slots,
                            state,
                            depth,
                        )
                    },
                    None => Some(
                        (
                            (m.effect)(instruction, seen(m, types, instruction, locals), state),
                            slots,
                        ),
                    ),
                };
                match reached {
                    Some((Outcome::Gives { value, state: next }, left)) => {
                        let l = behind(m, instruction, locals, value);
                        rest_is_run(
                            m,
                            methods,
                            types,
                            first,
                            rest,
                            at + 1,
                            handler,
                            l,
                            left,
                            next,
                            depth,
                        );
                    },
                    _ => {},
                }
            }
        }
    }
}

/// Instructions that handle a carrier in front of a block change what the block starts from.
pub proof fn front_comes_first(
    m: Meaning,
    methods: MethodTable,
    types: Map<Text, Seq<TypeModel>>,
    first: Seq<InstructionModel>,
    rest: Seq<InstructionModel>,
    locals: Locals,
    slots: Slots,
    state: int,
    depth: nat,
)
    requires
        all_handle_carrier(first),
    ensures
        ({
            let (l, s) = handled(m, first, locals, slots);
            exit_of(m, methods, types, first + rest, 0, None, locals, slots, state, depth)
                == exit_of(m, methods, types, rest, 0, None, l, s, state, depth)
        }),
{
    let (l, s) = handled(m, first, locals, slots);
    front_is_run(m, methods, types, first, rest, first.len(), None, locals, slots, state, depth);
    assert(first.take(first.len() as int) =~= first);
    rest_is_run(m, methods, types, first, rest, 0, None, l, s, state, depth);
}

/// Whether arrays are those of a carrier: each has a name and elements of its own, and room for as
/// many variables as a number counts.
pub open spec fn are_carrier_arrays(arrays: Seq<CarrierArrayModel>) -> bool {
    &&& forall|a: int| 0 <= a < arrays.len() ==> is_carrier_name((#[trigger] arrays[a]).name)
    &&& forall|a: int| 0 <= a < arrays.len() ==> has_value((#[trigger] arrays[a]).element_type)
    &&& forall|a: int, b: int|
        0 <= a < arrays.len() && 0 <= b < arrays.len() && (#[trigger] arrays[a]).name == (
        #[trigger] arrays[b]).name ==> a == b
    &&& forall|a: int| 0 <= a < arrays.len() ==> (#[trigger] arrays[a]).variables.len() <= i32::MAX
    &&& forall|a: int| 0 <= a < arrays.len() ==> (#[trigger] arrays[a]).variables.no_duplicates()
}

/// The arrays of the kinds have names and elements of their own.
proof fn arrays_have_names(per_kind: Seq<Seq<VariableModel>>, n: nat, a: int) -> (c: int)
    requires
        0 <= a < arrays_of(per_kind, n).len(),
    ensures
        0 <= c < n,
        arrays_of(per_kind, n)[a] == array_of(c as nat, per_kind[c]),
        per_kind[c].len() > 0,
        is_carrier_name(arrays_of(per_kind, n)[a].name),
        has_value(arrays_of(per_kind, n)[a].element_type),
    decreases n,
{
    let front = arrays_of(per_kind, (n - 1) as nat);
    if a < front.len() {
        arrays_have_names(per_kind, (n - 1) as nat, a)
    } else {
        let name = arrays_of(per_kind, n)[a].name;
        assert("$outlined$carrier$"@ =~= name.take("$outlined$carrier$"@.len() as int));
        n - 1
    }
}

/// Different arrays have different names.
proof fn array_names_differ(per_kind: Seq<Seq<VariableModel>>, n: nat, a: int, b: int)
    requires
        0 <= a < b < arrays_of(per_kind, n).len(),
    ensures
        arrays_of(per_kind, n)[a].name != arrays_of(per_kind, n)[b].name,
    decreases n,
{
    let front = arrays_of(per_kind, (n - 1) as nat);
    if b < front.len() {
        array_names_differ(per_kind, (n - 1) as nat, a, b);
    } else {
        let c = arrays_have_names(per_kind, (n - 1) as nat, a);
        let x = decimal_text(c as nat);
        let y = decimal_text((n - 1) as nat);
        if "$outlined$carrier$"@ + x == "$outlined$carrier$"@ + y {
            prefix_is_taken_off("$outlined$carrier$"@, x, y);
            decimals_differ(c as nat, (n - 1) as nat);
        }
    }
}

/// A text behind a prefix is what is left without the prefix.
pub proof fn prefix_is_taken_off(prefix: Text, a: Text, b: Text)
    requires
        prefix + a == prefix + b,
    ensures
        a == b,
{
    assert(a =~= (prefix + a).skip(prefix.len() as int));
    assert(b =~= (prefix + b).skip(prefix.len() as int));
}

/// The arrays of a carrier are such arrays.
pub proof fn carrier_has_arrays(
    live: Map<Text, Seq<VariableModel>>,
    entries: Seq<Seq<Text>>,
    arrays: Seq<CarrierArrayModel>,
)
    requires
        is_carrier(live, entries, arrays),
        forall|a: int| 0 <= a < arrays.len() ==> (#[trigger] arrays[a]).variables.len() <= i32::MAX,
    ensures
        are_carrier_arrays(arrays),
{
    let per_kind = choose|per_kind: Seq<Seq<VariableModel>>| #[trigger]
        listed_by_kind(live, entries, per_kind) && arrays == arrays_of(per_kind, CATEGORIES as nat);
    lemma_slots_distinct(live, entries, arrays);
    assert forall|a: int| 0 <= a < arrays.len() implies is_carrier_name((#[trigger] arrays[a]).name)
        && has_value(arrays[a].element_type) by {
        let c = arrays_have_names(per_kind, CATEGORIES as nat, a);
    }
    assert forall|a: int, b: int|
        0 <= a < arrays.len() && 0 <= b < arrays.len() && (#[trigger] arrays[a]).name == (
        #[trigger] arrays[b]).name implies a == b by {
        if a < b {
            array_names_differ(per_kind, CATEGORIES as nat, a, b);
        } else if b < a {
            array_names_differ(per_kind, CATEGORIES as nat, b, a);
        }
    }
}

/// The slot of a variable that has one is where the variable stands.
pub proof fn slot_holds_its_variable(arrays: Seq<CarrierArrayModel>, from: int, v: VariableModel)
    requires
        0 <= from <= arrays.len(),
        exists|a: int| from <= a < arrays.len() && (#[trigger] arrays[a]).variables.contains(v),
    ensures
        ({
            let (a, i) = slot_from(arrays, from, v);
            0 <= a < arrays.len() && 0 <= i < arrays[a].variables.len()
                && arrays[a].variables[i] == v
        }),
    decreases arrays.len() - from,
{
    let a = choose|a: int| from <= a < arrays.len() && (#[trigger] arrays[a]).variables.contains(v);
    if !arrays[from].variables.contains(v) {
        assert(from + 1 <= a);
        slot_holds_its_variable(arrays, from + 1, v);
    } else {
        let i = arrays[from].variables.index_of(v);
        assert(arrays[from].variables[i] == v);
    }
}

/// Whether an instruction stores a variable into its slot.
pub open spec fn is_store(arrays: Seq<CarrierArrayModel>, instruction: InstructionModel) -> bool {
    exists|a: int, i: int|
        0 <= a < arrays.len() && 0 <= i < arrays[a].variables.len()
            && instruction == #[trigger] store(
            arrays[a],
            i,
        )
}

/// The instructions that store the variables of one array store into its slots, and every live
/// variable of the first ones has one.
proof fn array_stores_are_stores(
    array: CarrierArrayModel,
    live: Seq<VariableModel>,
    n: nat,
    i: int,
)
    requires
        n <= array.variables.len(),
    ensures
        forall|k: int|
            0 <= k < array_stores(array, live, n).len() ==> exists|j: int|
                0 <= j < n && (#[trigger] array_stores(array, live, n)[k]) == #[trigger] store(
                    array,
                    j,
                ),
        0 <= i < n && live.contains(array.variables[i]) ==> array_stores(array, live, n).contains(
            store(array, i),
        ),
    decreases n,
{
    if n > 0 {
        array_stores_are_stores(array, live, (n - 1) as nat, i);
        let front = array_stores(array, live, (n - 1) as nat);
        let all = array_stores(array, live, n);
        assert forall|k: int| 0 <= k < all.len() implies exists|j: int|
            0 <= j < n && (#[trigger] all[k]) == #[trigger] store(array, j) by {
            if k < front.len() {
                assert(all[k] == front[k]);
                let j = choose|j: int|
                    0 <= j < n - 1 && front[k] == #[trigger] store(array, j);
                assert(all[k] == store(array, j));
            } else {
                assert(all[k] == store(array, n - 1));
            }
        }
        if 0 <= i < n && live.contains(array.variables[i]) {
            if i == n - 1 {
                assert(all.last() == store(array, i));
            } else {
                let k = choose|k: int| 0 <= k < front.len() && front[k] == store(array, i);
                assert(all[k] == store(array, i));
            }
        }
    }
}

/// The instructions that store live variables store into slots, and every live variable that has a
/// slot is stored into it.
proof fn stores_are_stores(
    arrays: Seq<CarrierArrayModel>,
    live: Seq<VariableModel>,
    a: int,
    i: int,
)
    ensures
        forall|k: int|
            0 <= k < stores(arrays, live).len() ==> is_store(
                arrays,
                #[trigger] stores(arrays, live)[k],
            ),
        0 <= a < arrays.len() && 0 <= i < arrays[a].variables.len() && live.contains(
            arrays[a].variables[i],
        ) ==> stores(arrays, live).contains(store(arrays[a], i)),
    decreases arrays.len(),
{
    if arrays.len() > 0 {
        let front = arrays.drop_last();
        let last = arrays.last();
        stores_are_stores(front, live, a, i);
        array_stores_are_stores(last, live, last.variables.len(), i);
        let x = stores(front, live);
        let y = array_stores(last, live, last.variables.len());
        let all = stores(arrays, live);
        assert(all == x + y);
        assert forall|k: int| 0 <= k < all.len() implies is_store(arrays, #[trigger] all[k]) by {
            if k < x.len() {
                assert(is_store(front, x[k]));
                let (b, j) = choose|b: int, j: int|
                    0 <= b < front.len() && 0 <= j < front[b].variables.len() && x[k]
                        == #[trigger] store(front[b], j);
                assert(all[k] == store(arrays[b], j));
            } else {
                let j = choose|j: int|
                    0 <= j < last.variables.len() && y[k - x.len()] == #[trigger] store(last, j);
                assert(all[k] == store(arrays[arrays.len() - 1], j));
            }
        }
        if 0 <= a < arrays.len() && 0 <= i < arrays[a].variables.len() && live.contains(
            arrays[a].variables[i],
        ) {
            if a == arrays.len() - 1 {
                let k = choose|k: int| 0 <= k < y.len() && y[k] == store(last, i);
                assert(all[x.len() + k] == store(arrays[a], i));
            } else {
                assert(front[a] == arrays[a]);
                let k = choose|k: int| 0 <= k < x.len() && x[k] == store(front[a], i);
                assert(all[k] == store(arrays[a], i));
            }
        }
    }
}

/// Storing leaves the variables alone and puts each variable that is stored into its slot.
proof fn storing_fills_slots(
    m: Meaning,
    arrays: Seq<CarrierArrayModel>,
    first: Seq<InstructionModel>,
    locals: Locals,
    slots: Slots,
    a: int,
    i: int,
)
    requires
        are_carrier_arrays(arrays),
        forall|k: int| 0 <= k < first.len() ==> is_store(arrays, #[trigger] first[k]),
        0 <= a < arrays.len(),
        0 <= i < arrays[a].variables.len(),
    ensures
        handled(m, first, locals, slots).0 == locals,
        first.contains(store(arrays[a], i)) ==> handled(
            m,
            first,
            locals,
            slots,
        ).1(arrays[a].name, i)
            == operand_value(
            m,
            crate::oomir::Operand::Variable {
                name: arrays[a].variables[i].0,
                ty: arrays[a].variables[i].1,
            },
            locals,
        ),
    decreases first.len(),
{
    if first.len() > 0 {
        let front = first.drop_last();
        let last = first.last();
        assert forall|k: int| 0 <= k < front.len() implies is_store(
            arrays,
            #[trigger] front[k],
        ) by {
            assert(front[k] == first[k]);
        }
        storing_fills_slots(m, arrays, front, locals, slots, a, i);
        assert(is_store(arrays, first[first.len() - 1]));
        let (b, j) = choose|b: int, j: int|
            0 <= b < arrays.len() && 0 <= j < arrays[b].variables.len() && last == #[trigger] store(
                arrays[b],
                j,
            );
        let (l, s) = handled(m, front, locals, slots);
        assert(l == locals);
        assert(taken(m, last, l, s) == l);
        if first.contains(store(arrays[a], i)) {
            let k = choose|k: int| 0 <= k < first.len() && first[k] == store(arrays[a], i);
            if k < front.len() {
                assert(front[k] == store(arrays[a], i));
            } else {
                assert(last == store(arrays[a], i));
            }
            if arrays[b].name == arrays[a].name && j == i {
                assert(b == a);
            }
        }
    }
}

/// What is put into the slots: the live variables, each into its own.
pub proof fn live_variables_are_stored(
    m: Meaning,
    arrays: Seq<CarrierArrayModel>,
    live: Seq<VariableModel>,
    locals: Locals,
    slots: Slots,
    v: VariableModel,
)
    requires
        are_carrier_arrays(arrays),
        exists|a: int| 0 <= a < arrays.len() && (#[trigger] arrays[a]).variables.contains(v),
        live.contains(v),
        has_value(v.1),
    ensures
        ({
            let (a, i) = slot_of(arrays, v);
            let (l, s) = handled(m, stores(arrays, live), locals, slots);
            s(arrays[a].name, i) == locals(v)
        }),
{
    let (a, i) = slot_of(arrays, v);
    slot_holds_its_variable(arrays, 0, v);
    stores_are_stores(arrays, live, a, i);
    storing_fills_slots(m, arrays, stores(arrays, live), locals, slots, a, i);
}

/// Storing is handling the carrier, and leaves the variables alone.
pub proof fn storing_keeps_variables(
    m: Meaning,
    arrays: Seq<CarrierArrayModel>,
    live: Seq<VariableModel>,
    locals: Locals,
    slots: Slots,
)
    requires
        are_carrier_arrays(arrays),
    ensures
        all_handle_carrier(stores(arrays, live)),
        forall|k: int| 0 <= k < stores(arrays, live).len() ==> (
            #[trigger] stores(arrays, live)[k]
        ) is ArrayStore,
        handled(m, stores(arrays, live), locals, slots).0 == locals,
{
    let first = stores(arrays, live);
    stores_are_stores(arrays, live, 0, 0);
    assert forall|k: int| 0 <= k < first.len() implies handles_carrier(#[trigger] first[k])
        && first[k] is ArrayStore by {
        assert(is_store(arrays, first[k]));
    }
    if first.len() > 0 {
        assert(is_store(arrays, first[0]));
        let (a, i) = choose|a: int, i: int|
            0 <= a < arrays.len() && 0 <= i < arrays[a].variables.len() && first[0]
                == #[trigger] store(arrays[a], i);
        storing_fills_slots(m, arrays, first, locals, slots, a, i);
    }
}

/// Whether a name is that of a temporary that takes the value of a slot.
pub open spec fn is_load_name(name: Text) -> bool {
    "$outlined$load$"@.is_prefix_of(name)
}

/// Restoring variables takes each out of its slot and leaves the others and the slots alone.
pub proof fn variables_are_restored(
    m: Meaning,
    arrays: Seq<CarrierArrayModel>,
    list: Seq<VariableModel>,
    locals: Locals,
    slots: Slots,
    v: VariableModel,
)
    requires
        are_carrier_arrays(arrays),
        forall|k: int|
            0 <= k < list.len() ==> has_slot(arrays, #[trigger] list[k]),
        !is_load_name(v.0),
    ensures
        all_handle_carrier(loads(arrays, list)),
        ({
            let (l, s) = handled(m, loads(arrays, list), locals, slots);
            let (a, i) = slot_of(arrays, v);
            &&& s == slots
            &&& l(v) == if list.contains(v) {
                slots(arrays[a].name, i)
            } else {
                locals(v)
            }
        }),
    decreases list.len(),
{
    if list.len() > 0 {
        let front = list.drop_last();
        let last = list.last();
        assert forall|k: int| 0 <= k < front.len() implies has_slot(
            arrays,
            #[trigger] front[k],
        ) by {
            assert(front[k] == list[k]);
        }
        variables_are_restored(m, arrays, front, locals, slots, v);
        assert(has_slot(arrays, list[list.len() - 1]));
        slot_holds_its_variable(arrays, 0, last);
        let (a, i) = slot_of(arrays, last);
        let before = loads(arrays, front);
        let two = load(arrays, last);
        let all = loads(arrays, list);
        assert(all == before + two);
        assert(all.last() == two[1]);
        assert(all.drop_last() =~= before.push(two[0]));
        assert(all.drop_last().last() == two[0]);
        assert(all.drop_last().drop_last() =~= before);
        let (l, s) = handled(m, before, locals, slots);
        let got = taken(m, two[0], l, s);
        assert(handled(m, all.drop_last(), locals, slots) == (got, put(m, two[0], l, s)));
        assert(put(m, two[0], l, s) == s);
        let name = load_name(a, i);
        let element = arrays[a].element_type;
        assert(definition_of(two[0]) == Some((name, element)));
        assert(position_of(int_operand(i)) == i);
        assert(got == holding(m, l, (name, element), s(arrays[a].name, i)));
        assert(got((name, element)) == s(arrays[a].name, i));
        let dest = RESTORE_PREFIX@ + last.0;
        assert(dest.skip(RESTORE_PREFIX@.len() as int) =~= last.0);
        assert(RESTORE_PREFIX@ =~= dest.take(RESTORE_PREFIX@.len() as int));
        assert(is_load_name(name)) by {
            assert("$outlined$load$"@ =~= name.take("$outlined$load$"@.len() as int));
        }
        assert(v.0 != name);
        assert(handles_carrier(two[0]) && handles_carrier(two[1]));
        assert forall|k: int| 0 <= k < all.len() implies handles_carrier(#[trigger] all[k]) by {
            if k < before.len() {
                assert(all[k] == before[k]);
            } else if k == before.len() {
                assert(all[k] == two[0]);
            } else {
                assert(all[k] == two[1]);
            }
        }
        if list.contains(v) && v != last {
            let k = choose|k: int| 0 <= k < list.len() && list[k] == v;
            assert(front[k] == v);
        }
        if front.contains(v) {
            let k = choose|k: int| 0 <= k < front.len() && front[k] == v;
            assert(list[k] == v);
        }
        if v == last {
            assert(list[list.len() - 1] == v);
        }
    }
}

/// Making the arrays of a carrier leaves the other variables alone.
pub proof fn making_keeps_variables(
    m: Meaning,
    arrays: Seq<CarrierArrayModel>,
    locals: Locals,
    slots: Slots,
    v: VariableModel,
)
    requires
        forall|a: int| 0 <= a < arrays.len() ==> is_carrier_name((#[trigger] arrays[a]).name),
        !is_carrier_name(v.0),
    ensures
        all_handle_carrier(arrays.map_values(|a: CarrierArrayModel| allocation(a))),
        handled(m, arrays.map_values(|a: CarrierArrayModel| allocation(a)), locals, slots).0(v)
            == locals(v),
    decreases arrays.len(),
{
    let first = arrays.map_values(|a: CarrierArrayModel| allocation(a));
    if arrays.len() > 0 {
        let front = arrays.drop_last();
        assert forall|a: int| 0 <= a < front.len() implies is_carrier_name(
            (#[trigger] front[a]).name,
        ) by {
            assert(front[a] == arrays[a]);
        }
        making_keeps_variables(m, front, locals, slots, v);
        assert(first.drop_last() =~= front.map_values(|a: CarrierArrayModel| allocation(a)));
        assert(first.last() == allocation(arrays[arrays.len() - 1]));
        assert forall|i: int| 0 <= i < first.len() implies handles_carrier(#[trigger] first[i]) by {
            assert(is_carrier_name(arrays[i].name));
        }
    }
}

} // verus!
