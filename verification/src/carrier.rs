//! Arrays that carry live variables between the parts of an outlined function.
use crate::descriptor::{descriptor, OBJECT_CLASS};
use crate::flow::{insert_variable, variable_position, variables_sorted, Variable, VariableModel};
use crate::liveness::LiveVariables;
use crate::oomir::{
    Constant,
    ConstantModel,
    Duplicate,
    Instruction,
    InstructionModel,
    Operand,
    OperandModel,
    Text,
    Type,
    TypeModel,
};
use crate::text::{cat2, decimal, decimal_text, same};
use vstd::prelude::*;
use vstd::string::*;

verus! {

/// What stands in front of a variable's name while it is restored from a carrier.
pub const RESTORE_PREFIX: &'static str = "$outlined$restore$";

/// The number of kinds of carrier arrays.
pub const CATEGORIES: usize = 12;

/// The number of JVM slots that a value of a type takes.
pub open spec fn slots<S>(ty: Type<S>) -> nat {
    match ty {
        Type::Unit => 0,
        Type::Void => 0,
        Type::I64 => 2,
        Type::U64 => 2,
        Type::F64 => 2,
        _ => 1,
    }
}

/// The number of JVM slots that a value of a type takes.
pub fn type_slots(ty: &Type) -> (r: usize)
    ensures
        r == slots(ty.deep_view()),
{
    match ty {
        Type::Unit | Type::Void => 0,
        Type::I64 | Type::U64 | Type::F64 => 2,
        _ => 1,
    }
}

/// The number of slots that variables take together.
pub open spec fn slots_of(list: Seq<VariableModel>) -> nat
    decreases list.len(),
{
    if list.len() == 0 {
        0
    } else {
        slots_of(list.drop_last()) + slots(list.last().1)
    }
}

/// The value that stands for a variable that is not live: zero, or no object.
pub open spec fn default_of(ty: TypeModel) -> ConstantModel {
    match ty {
        Type::I8 => Constant::I8(0),
        Type::U8 => Constant::U8(0),
        Type::I16 => Constant::I16(0),
        Type::U16 => Constant::U16(0),
        Type::F16 => Constant::F16(0),
        Type::I32 => Constant::I32(0),
        Type::U32 => Constant::U32(0),
        Type::I64 => Constant::I64(0),
        Type::U64 => Constant::U64(0),
        Type::F32 => Constant::F32(0),
        Type::F64 => Constant::F64(0),
        Type::Boolean => Constant::Boolean(false),
        Type::Char => Constant::Char('\0'),
        Type::Unit => Constant::Unit,
        Type::Void => Constant::Unit,
        other => Constant::Null(other),
    }
}

/// The value that stands for a variable that is not live: zero, or no object.
pub fn default_constant(ty: &Type) -> (r: Constant)
    ensures
        r.deep_view() == default_of(ty.deep_view()),
{
    match ty {
        Type::I8 => Constant::I8(0),
        Type::U8 => Constant::U8(0),
        Type::I16 => Constant::I16(0),
        Type::U16 => Constant::U16(0),
        Type::F16 => Constant::F16(0),
        Type::I32 => Constant::I32(0),
        Type::U32 => Constant::U32(0),
        Type::I64 => Constant::I64(0),
        Type::U64 => Constant::U64(0),
        Type::F32 => Constant::F32(0),
        Type::F64 => Constant::F64(0),
        Type::Boolean => Constant::Boolean(false),
        Type::Char => Constant::Char('\0'),
        Type::Unit | Type::Void => Constant::Unit,
        other => Constant::Null(other.dup()),
    }
}

/// The default value of a type has that type, except for `Void`, whose value is the unit value.
pub proof fn default_has_the_type(ty: TypeModel)
    ensures
        crate::oomir::constant_type(default_of(ty)) == (if ty is Void {
            Type::Unit
        } else {
            ty
        }),
{
}

/// The kind of carrier array that holds values of a type, and the type of its elements: one kind
/// for each primitive descriptor, one for pointers, one for slices, one for string slices and one
/// for all other objects.
pub open spec fn category_of(ty: TypeModel) -> (nat, TypeModel) {
    let d = descriptor(ty);
    if d == "Z"@ {
        (0, Type::Boolean)
    } else if d == "B"@ {
        (1, Type::I8)
    } else if d == "S"@ {
        (2, Type::I16)
    } else if d == "C"@ {
        (3, Type::U16)
    } else if d == "I"@ {
        (4, Type::I32)
    } else if d == "J"@ {
        (5, Type::I64)
    } else if d == "F"@ {
        (6, Type::F32)
    } else if d == "D"@ {
        (7, Type::F64)
    } else if d == descriptor(Type::Pointer(Box::new(Type::Unit))) {
        (8, Type::Pointer(Box::new(Type::Unit)))
    } else if d == descriptor(Type::Slice(Box::new(Type::Unit))) {
        (9, Type::Slice(Box::new(Type::Unit)))
    } else if d == descriptor(Type::Str) {
        (10, Type::Str)
    } else {
        (11, Type::Class(OBJECT_CLASS@))
    }
}

/// The kind of carrier array that holds values of a type, and the type of its elements.
pub fn carrier_category(ty: &Type) -> (r: (usize, Type))
    ensures
        (r.0 as nat, r.1.deep_view()) == category_of(ty.deep_view()),
        r.0 < CATEGORIES,
{
    let d = ty.to_jvm_descriptor();
    let pointer = Type::Pointer(Box::new(Type::Unit));
    let slice = Type::Slice(Box::new(Type::Unit));
    proof {
        reveal_with_fuel(crate::oomir::type_model, 2);
    }
    if same(d.as_str(), "Z") {
        (0, Type::Boolean)
    } else if same(d.as_str(), "B") {
        (1, Type::I8)
    } else if same(d.as_str(), "S") {
        (2, Type::I16)
    } else if same(d.as_str(), "C") {
        (3, Type::U16)
    } else if same(d.as_str(), "I") {
        (4, Type::I32)
    } else if same(d.as_str(), "J") {
        (5, Type::I64)
    } else if same(d.as_str(), "F") {
        (6, Type::F32)
    } else if same(d.as_str(), "D") {
        (7, Type::F64)
    } else if same(d.as_str(), pointer.to_jvm_descriptor().as_str()) {
        (8, pointer)
    } else if same(d.as_str(), slice.to_jvm_descriptor().as_str()) {
        (9, slice)
    } else if same(d.as_str(), Type::Str.to_jvm_descriptor().as_str()) {
        (10, Type::Str)
    } else {
        (11, Type::Class(OBJECT_CLASS.to_string()))
    }
}

/// One carrier array: the variable at each position has its slot there.
#[derive(Debug)]
pub struct CarrierArray {
    pub name: String,
    pub element_type: Type,
    pub variables: Vec<Variable>,
}

/// The model of a [`CarrierArray`].
pub struct CarrierArrayModel {
    pub name: Text,
    pub element_type: TypeModel,
    pub variables: Seq<VariableModel>,
}

impl DeepView for CarrierArray {
    type V = CarrierArrayModel;

    open spec fn deep_view(&self) -> CarrierArrayModel {
        CarrierArrayModel {
            name: self.name@,
            element_type: self.element_type.deep_view(),
            variables: self.variables.deep_view(),
        }
    }
}

/// Whether a variable is live on entry to one of the labels.
pub open spec fn live_at_one(live: Map<Text, Seq<VariableModel>>, entries: Seq<Text>,
    v: VariableModel) -> bool {
    exists|e: int| 0 <= e < entries.len() && live[#[trigger] entries[e]].contains(v)
}

/// Whether a list holds exactly the variables that are live on entry to one of the labels, sorted
/// and once each.
pub open spec fn is_union(live: Map<Text, Seq<VariableModel>>, entries: Seq<Text>,
    list: Seq<VariableModel>) -> bool {
    &&& list.no_duplicates()
    &&& variables_sorted(list)
    &&& forall|v: VariableModel| #[trigger] list.contains(v) <==> live_at_one(live, entries, v)
}

/// The variables that are live on entry to one of the labels.
pub fn union_of(entries: &Vec<String>, live: &LiveVariables) -> (r: Vec<Variable>)
    requires
        forall|e: int| 0 <= e < entries@.len() ==> live.deep_view().dom().contains(
            #[trigger] entries.deep_view()[e],
        ),
    ensures
        is_union(live.deep_view(), entries.deep_view(), r.deep_view()),
{
    let mut r: Vec<Variable> = Vec::new();
    let ghost names = entries.deep_view();
    let ghost model = live.deep_view();
    let mut e: usize = 0;
    while e < entries.len()
        invariant
            e <= entries@.len(),
            names == entries.deep_view(),
            model == live.deep_view(),
            forall|e: int| 0 <= e < names.len() ==> model.dom().contains(#[trigger] names[e]),
            r.deep_view().no_duplicates(),
            variables_sorted(r.deep_view()),
            forall|v: VariableModel| #[trigger] r.deep_view().contains(v)
                <==> exists|k: int| 0 <= k < e && model[#[trigger] names[k]].contains(v),
        decreases entries@.len() - e,
    {
        assert(names[e as int] == entries@[e as int]@);
        assert(model.dom().contains(names[e as int]));
        assert(live.map().dom().contains(names[e as int]));
        let list: &Vec<Variable> = live.get(entries[e].as_str()).unwrap();
        let ghost all = list.deep_view();
        assert(all == model[names[e as int]]);
        let ghost r0 = r.deep_view();
        let mut i: usize = 0;
        while i < list.len()
            invariant
                i <= list@.len(),
                all == list.deep_view(),
                r.deep_view().no_duplicates(),
                variables_sorted(r.deep_view()),
                forall|v: VariableModel| #[trigger] r.deep_view().contains(v) <==> r0.contains(v)
                    || exists|k: int| 0 <= k < i && #[trigger] all[k] == v,
            decreases list@.len() - i,
        {
            let ghost r1 = r.deep_view();
            assert(all[i as int] == list@[i as int].deep_view());
            insert_variable(&mut r, list[i].dup());
            assert forall|v: VariableModel| #[trigger] r.deep_view().contains(v) <==> r0.contains(v)
                || exists|k: int| 0 <= k < i + 1 && #[trigger] all[k] == v by {
                assert(r.deep_view().contains(v) <==> r1.contains(v) || v == all[i as int]);
            }
            i = i + 1;
        }
        assert forall|v: VariableModel| #[trigger] r.deep_view().contains(v)
            <==> exists|k: int| 0 <= k < e + 1 && model[#[trigger] names[k]].contains(v) by {
            assert(all.contains(v) <==> exists|k: int| 0 <= k < i && #[trigger] all[k] == v);
            assert(r0.contains(v) <==> exists|k: int| 0 <= k < e
                && model[#[trigger] names[k]].contains(v));
            if all.contains(v) {
                assert(model[names[e as int]].contains(v));
            }
        }
        e = e + 1;
    }
    r
}

/// Whether a variable is live on entry to a later part: to one of its entry labels.
pub open spec fn live_later(live: Map<Text, Seq<VariableModel>>, entries: Seq<Seq<Text>>,
    v: VariableModel) -> bool {
    exists|k: int| 1 <= k < entries.len() && #[trigger] live_at_one(live, entries[k], v)
}

/// Whether a list holds exactly the variables of one kind that are live on entry to a later part,
/// sorted and once each.
pub open spec fn is_category_list(
    live: Map<Text, Seq<VariableModel>>,
    entries: Seq<Seq<Text>>,
    category: nat,
    list: Seq<VariableModel>,
) -> bool {
    &&& list.no_duplicates()
    &&& variables_sorted(list)
    &&& forall|v: VariableModel| #[trigger] list.contains(v) <==> category_of(v.1).0 == category
        && live_later(live, entries, v)
}

/// The carrier array of one kind.
pub open spec fn array_of(category: nat, list: Seq<VariableModel>) -> CarrierArrayModel {
    CarrierArrayModel {
        name: "$outlined$carrier$"@ + decimal_text(category),
        element_type: category_of(list[0].1).1,
        variables: list,
    }
}

/// The carrier arrays of the first `n` kinds; a kind without variables has none.
pub open spec fn arrays_of(per_kind: Seq<Seq<VariableModel>>, n: nat) -> Seq<CarrierArrayModel>
    decreases n,
{
    if n == 0 {
        Seq::empty()
    } else {
        let front = arrays_of(per_kind, (n - 1) as nat);
        if per_kind[n - 1].len() > 0 {
            front.push(array_of((n - 1) as nat, per_kind[n - 1]))
        } else {
            front
        }
    }
}

/// Whether variables are listed by kind.
pub open spec fn listed_by_kind(
    live: Map<Text, Seq<VariableModel>>,
    entries: Seq<Seq<Text>>,
    per_kind: Seq<Seq<VariableModel>>,
) -> bool {
    per_kind.len() == CATEGORIES && forall|c: int| 0 <= c < per_kind.len() ==> is_category_list(
        live,
        entries,
        c as nat,
        #[trigger] per_kind[c],
    )
}

/// Whether arrays are the carrier of the variables that are live on entry to later parts.
pub open spec fn is_carrier(
    live: Map<Text, Seq<VariableModel>>,
    entries: Seq<Seq<Text>>,
    arrays: Seq<CarrierArrayModel>,
) -> bool {
    exists|per_kind: Seq<Seq<VariableModel>>| #[trigger]
        listed_by_kind(live, entries, per_kind) && arrays == arrays_of(per_kind, CATEGORIES as nat)
}

/// The variables of one kind that are live on entry to a later part.
fn category_list(
    entries: &Vec<Vec<String>>,
    live: &LiveVariables,
    category: usize,
) -> (r: Vec<Variable>)
    requires
        forall|k: int, e: int|
            0 <= k < entries@.len() && 0 <= e < entries.deep_view()[k].len()
                ==> live.deep_view().dom().contains(
                #[trigger] entries.deep_view()[k][e],
            ),
    ensures
        is_category_list(live.deep_view(), entries.deep_view(), category as nat, r.deep_view()),
{
    let ghost names = entries.deep_view();
    let ghost model = live.deep_view();
    let mut r: Vec<Variable> = Vec::new();
    let mut k: usize = 1;
    while k < entries.len()
        invariant
            1 <= k,
            k <= entries@.len() || k == 1,
            names == entries.deep_view(),
            model == live.deep_view(),
            forall|k: int, e: int| 0 <= k < names.len() && 0 <= e < names[k].len()
                ==> model.dom().contains(#[trigger] names[k][e]),
            r.deep_view().no_duplicates(),
            variables_sorted(r.deep_view()),
            forall|v: VariableModel| #[trigger] r.deep_view().contains(v)
                <==> category_of(v.1).0 == category && exists|j: int| 1 <= j < k
                && #[trigger] live_at_one(model, names[j], v),
        decreases entries@.len() - k,
    {
        assert(names[k as int] == entries@[k as int].deep_view());
        let list = union_of(&entries[k], live);
        let ghost all = list.deep_view();
        let ghost r0 = r.deep_view();
        let mut i: usize = 0;
        while i < list.len()
            invariant
                i <= list@.len(),
                all == list.deep_view(),
                r.deep_view().no_duplicates(),
                variables_sorted(r.deep_view()),
                forall|v: VariableModel| #[trigger] r.deep_view().contains(v) <==> r0.contains(v)
                    || (category_of(v.1).0 == category && exists|j: int| 0 <= j < i
                    && #[trigger] all[j] == v),
            decreases list@.len() - i,
        {
            let ghost r1 = r.deep_view();
            assert(all[i as int] == list@[i as int].deep_view());
            if carrier_category(&list[i].ty).0 == category {
                insert_variable(&mut r, list[i].dup());
            }
            assert forall|v: VariableModel| #[trigger] r.deep_view().contains(v) <==> r0.contains(v)
                || (category_of(v.1).0 == category && exists|j: int| 0 <= j < i + 1
                && #[trigger] all[j] == v) by {
                assert(r.deep_view().contains(v) <==> r1.contains(v) || (
                    category_of(v.1).0 == category && v == all[i as int]
                ));
            }
            i = i + 1;
        }
        assert forall|v: VariableModel| #[trigger] r.deep_view().contains(v)
            <==> category_of(v.1).0 == category && exists|j: int| 1 <= j < k + 1
            && #[trigger] live_at_one(model, names[j], v) by {
            assert(all.contains(v) <==> exists|j: int| 0 <= j < i && #[trigger] all[j] == v);
            assert(all.contains(v) <==> live_at_one(model, names[k as int], v));
            assert(r0.contains(v) <==> category_of(v.1).0 == category && exists|j: int| 1 <= j < k
                && #[trigger] live_at_one(model, names[j], v));
        }
        k = k + 1;
    }
    r
}

/// The carrier of the variables that are live on entry to later parts.
pub fn build_carrier_plan(
    entries: &Vec<Vec<String>>,
    live: &LiveVariables,
) -> (arrays: Vec<CarrierArray>)
    requires
        forall|k: int, e: int|
            0 <= k < entries@.len() && 0 <= e < entries.deep_view()[k].len()
                ==> live.deep_view().dom().contains(
                #[trigger] entries.deep_view()[k][e],
            ),
    ensures
        is_carrier(live.deep_view(), entries.deep_view(), arrays.deep_view()),
{
    let mut arrays: Vec<CarrierArray> = Vec::new();
    let ghost mut per_kind: Seq<Seq<VariableModel>> = Seq::empty();
    assert(arrays.deep_view() =~= Seq::<CarrierArrayModel>::empty());
    for c in 0..CATEGORIES
        invariant
            forall|k: int, e: int|
                0 <= k < entries@.len() && 0 <= e < entries.deep_view()[k].len()
                    ==> live.deep_view().dom().contains(#[trigger] entries.deep_view()[k][e]),
            per_kind.len() == c,
            forall|k: int| 0 <= k < c ==> is_category_list(
                live.deep_view(),
                entries.deep_view(),
                k as nat,
                #[trigger] per_kind[k],
            ),
            arrays.deep_view() == arrays_of(per_kind, c as nat),
    {
        let list = category_list(entries, live, c);
        let ghost old_kinds = per_kind;
        let ghost a0 = arrays.deep_view();
        proof {
            per_kind = per_kind.push(list.deep_view());
            lemma_arrays_prefix(old_kinds, per_kind, c as nat);
        }
        if list.len() > 0 {
            assert(list.deep_view()[0] == list@[0].deep_view());
            let (_, element_type) = carrier_category(&list[0].ty);
            let name = cat2("$outlined$carrier$", decimal(c as u128).as_str());
            arrays.push(CarrierArray { name, element_type, variables: list });
            assert(arrays.deep_view() =~= a0.push(array_of(c as nat, per_kind[c as int])));
        }
    }
    assert(listed_by_kind(live.deep_view(), entries.deep_view(), per_kind));
    arrays
}

proof fn lemma_arrays_prefix(a: Seq<Seq<VariableModel>>, b: Seq<Seq<VariableModel>>, n: nat)
    requires
        n <= a.len(),
        n <= b.len(),
        forall|i: int| 0 <= i < n ==> a[i] == b[i],
    ensures
        arrays_of(a, n) == arrays_of(b, n),
    decreases n,
{
    if n > 0 {
        lemma_arrays_prefix(a, b, (n - 1) as nat);
    }
}

/// An integer constant as an operand.
pub open spec fn int_operand(value: int) -> OperandModel {
    Operand::Constant(Constant::I32(value as i32))
}

/// The type of a carrier array.
pub open spec fn carrier_type(array: CarrierArrayModel) -> TypeModel {
    Type::Array(Box::new(array.element_type))
}

/// The type of a carrier array.
pub fn carrier_array_type(array: &CarrierArray) -> (r: Type)
    ensures
        r.deep_view() == carrier_type(array.deep_view()),
{
    Type::Array(Box::new(array.element_type.dup()))
}

/// The instruction that allocates a carrier array: one slot for each variable.
pub open spec fn allocation(array: CarrierArrayModel) -> InstructionModel {
    InstructionModel::NewArray {
        dest: array.name,
        element_type: array.element_type,
        size: int_operand(array.variables.len() as int),
    }
}

/// The instructions that allocate the carrier arrays.
pub fn carrier_allocations(arrays: &Vec<CarrierArray>) -> (r: Vec<Instruction>)
    ensures
        r.deep_view() == arrays.deep_view().map_values(|a: CarrierArrayModel| allocation(a)),
{
    let mut r: Vec<Instruction> = Vec::new();
    for i in 0..arrays.len()
        invariant
            r@.len() == i,
            forall|k: int| 0 <= k < i ==> (#[trigger] r@[k]).deep_view() == allocation(
                arrays@[k].deep_view(),
            ),
    {
        let array = &arrays[i];
        r.push(
            Instruction::NewArray {
                dest: array.name.clone(),
                element_type: array.element_type.dup(),
                size: Operand::Constant(Constant::I32(array.variables.len() as i32)),
            },
        );
    }
    assert(r.deep_view() =~= arrays.deep_view().map_values(|a: CarrierArrayModel| allocation(a)));
    r
}

/// The instruction that stores the variable with slot `i`.
pub open spec fn store(array: CarrierArrayModel, i: int) -> InstructionModel {
    InstructionModel::ArrayStore {
        array: array.name,
        index: int_operand(i),
        value: Operand::Variable { name: array.variables[i].0, ty: array.variables[i].1 },
        copy_value: false,
    }
}

/// The instructions that store those of the first `n` variables of an array that are live.
pub open spec fn array_stores(
    array: CarrierArrayModel,
    live: Seq<VariableModel>,
    n: nat,
) -> Seq<InstructionModel>
    decreases n,
{
    if n == 0 {
        Seq::empty()
    } else {
        let front = array_stores(array, live, (n - 1) as nat);
        if live.contains(array.variables[n - 1]) {
            front.push(store(array, n - 1))
        } else {
            front
        }
    }
}

/// The instructions that store the live variables into their slots.
pub open spec fn stores(
    arrays: Seq<CarrierArrayModel>,
    live: Seq<VariableModel>,
) -> Seq<InstructionModel>
    decreases arrays.len(),
{
    if arrays.len() == 0 {
        Seq::empty()
    } else {
        stores(
            arrays.drop_last(),
            live,
        ) + array_stores(arrays.last(), live, arrays.last().variables.len())
    }
}

/// The instructions that store the variables live on entry to a target into their slots.
pub fn carrier_stores(arrays: &Vec<CarrierArray>, live: &Vec<Variable>) -> (r: Vec<Instruction>)
    ensures
        r.deep_view() == stores(arrays.deep_view(), live.deep_view()),
{
    let mut r: Vec<Instruction> = Vec::new();
    let ghost all = arrays.deep_view();
    let ghost lv = live.deep_view();
    assert(all.take(0) =~= Seq::<CarrierArrayModel>::empty());
    assert(r.deep_view() =~= Seq::<InstructionModel>::empty());
    let mut a: usize = 0;
    while a < arrays.len()
        invariant
            a <= arrays@.len(),
            all == arrays.deep_view(),
            lv == live.deep_view(),
            r.deep_view() == stores(all.take(a as int), lv),
        decreases arrays@.len() - a,
    {
        let array = &arrays[a];
        let ghost model = all[a as int];
        assert(model == array.deep_view());
        assert(all.take(a + 1).drop_last() =~= all.take(a as int));
        let ghost r0 = r.deep_view();
        assert(r0 + Seq::<InstructionModel>::empty() =~= r0);
        for i in 0..array.variables.len()
            invariant
                model == array.deep_view(),
                lv == live.deep_view(),
                r.deep_view() == r0 + array_stores(model, lv, i as nat),
        {
            let variable = &array.variables[i];
            assert(model.variables[i as int] == variable.deep_view());
            let ghost r1 = r.deep_view();
            if variable_position(live, variable).is_some() {
                r.push(
                    Instruction::ArrayStore {
                        array: array.name.clone(),
                        index: Operand::Constant(Constant::I32(i as i32)),
                        value: Operand::Variable { name: variable.name.clone(),
                            ty: variable.ty.dup() },
                        copy_value: false,
                    },
                );
                assert(r.deep_view() =~= r1.push(store(model, i as int)));
                assert(
                    r.deep_view() =~= r0 + array_stores(model, lv, i as nat).push(
                        store(model, i as int),
                    )
                );
            }
        }
        a = a + 1;
    }
    assert(all.take(all.len() as int) =~= all);
    r
}

/// The array and the position of the slot of a variable, searched from array `a` on.
pub open spec fn slot_from(arrays: Seq<CarrierArrayModel>, a: int, v: VariableModel) -> (int, int)
    decreases arrays.len() - a,
{
    if a < 0 || a >= arrays.len() {
        (arrays.len() as int, 0)
    } else if arrays[a].variables.contains(v) {
        (a, arrays[a].variables.index_of(v))
    } else {
        slot_from(arrays, a + 1, v)
    }
}

/// The array and the position of the slot of a variable.
pub open spec fn slot_of(arrays: Seq<CarrierArrayModel>, v: VariableModel) -> (int, int) {
    slot_from(arrays, 0, v)
}

/// The name of the temporary that takes a slot's value.
pub open spec fn load_name(a: int, i: int) -> Text {
    "$outlined$load$"@ + decimal_text(a as nat) + "$"@ + decimal_text(i as nat)
}

/// The instructions that restore a variable from its slot.
pub open spec fn load(arrays: Seq<CarrierArrayModel>, v: VariableModel) -> Seq<InstructionModel> {
    let (a, i) = slot_of(arrays, v);
    seq![
        InstructionModel::ArrayGet {
            dest: load_name(a, i),
            array: Operand::Variable { name: arrays[a].name, ty: carrier_type(arrays[a]) },
            index: int_operand(i),
        },
        InstructionModel::Cast {
            op: Operand::Variable { name: load_name(a, i), ty: arrays[a].element_type },
            ty: v.1,
            dest: RESTORE_PREFIX@ + v.0,
        },
    ]
}

/// The instructions that restore variables from their slots, in the order of the list.
pub open spec fn loads(
    arrays: Seq<CarrierArrayModel>,
    list: Seq<VariableModel>,
) -> Seq<InstructionModel>
    decreases list.len(),
{
    if list.len() == 0 {
        Seq::empty()
    } else {
        loads(arrays, list.drop_last()) + load(arrays, list.last())
    }
}

/// Whether every variable of a list has a slot.
pub open spec fn all_have_slots(arrays: Seq<CarrierArrayModel>, list: Seq<VariableModel>) -> bool {
    forall|i: int| 0 <= i < list.len() ==> has_slot(arrays, #[trigger] list[i])
}

/// Whether a variable has a slot.
pub open spec fn has_slot(arrays: Seq<CarrierArrayModel>, v: VariableModel) -> bool {
    exists|a: int| 0 <= a < arrays.len() && (#[trigger] arrays[a]).variables.contains(v)
}

/// Whether no array holds a variable twice.
pub open spec fn slots_distinct(arrays: Seq<CarrierArrayModel>) -> bool {
    forall|a: int| 0 <= a < arrays.len() ==> (#[trigger] arrays[a]).variables.no_duplicates()
}

fn find_slot(arrays: &Vec<CarrierArray>, variable: &Variable) -> (r: (usize, usize))
    requires
        has_slot(arrays.deep_view(), variable.deep_view()),
        slots_distinct(arrays.deep_view()),
    ensures
        r.0 < arrays@.len(),
        r.1 < arrays@[r.0 as int].variables@.len(),
        (r.0 as int, r.1 as int) == slot_of(arrays.deep_view(), variable.deep_view()),
{
    let ghost all = arrays.deep_view();
    let ghost v = variable.deep_view();
    let mut a: usize = 0;
    while a < arrays.len()
        invariant
            a <= arrays@.len(),
            all == arrays.deep_view(),
            v == variable.deep_view(),
            slots_distinct(all),
            slot_of(all, v) == slot_from(all, a as int, v),
            forall|k: int| 0 <= k < a ==> !(#[trigger] all[k]).variables.contains(v),
        decreases arrays@.len() - a,
    {
        assert(all[a as int] == arrays@[a as int].deep_view());
        if let Some(i) = variable_position(&arrays[a].variables, variable) {
            let ghost list = all[a as int].variables;
            assert(list == arrays@[a as int].variables.deep_view());
            assert(list[i as int] == v);
            assert(list.contains(v));
            return (a, i);
        }
        a = a + 1;
    }
    assert(false);
    (0, 0)
}

/// The instructions that restore the variables that are live on entry to a part.
pub fn carrier_loads(arrays: &Vec<CarrierArray>, list: &Vec<Variable>) -> (r: Vec<Instruction>)
    requires
        all_have_slots(arrays.deep_view(), list.deep_view()),
        slots_distinct(arrays.deep_view()),
    ensures
        r.deep_view() == loads(arrays.deep_view(), list.deep_view()),
{
    let ghost all = arrays.deep_view();
    let ghost lv = list.deep_view();
    let mut r: Vec<Instruction> = Vec::new();
    assert(lv.take(0) =~= Seq::<VariableModel>::empty());
    assert(r.deep_view() =~= Seq::<InstructionModel>::empty());
    for i in 0..list.len()
        invariant
            all == arrays.deep_view(),
            lv == list.deep_view(),
            all_have_slots(all, lv),
            slots_distinct(all),
            r.deep_view() == loads(all, lv.take(i as int)),
    {
        let variable = &list[i];
        let ghost v = lv[i as int];
        assert(v == variable.deep_view());
        assert(lv.take(i + 1).drop_last() =~= lv.take(i as int));
        assert(has_slot(all, v));
        let (a, k) = find_slot(arrays, variable);
        let array = &arrays[a];
        assert(all[a as int] == array.deep_view());
        let temp = cat2(
            cat2("$outlined$load$", decimal(a as u128).as_str()).as_str(),
            cat2("$", decimal(k as u128).as_str()).as_str(),
        );
        assert(temp@ =~= load_name(a as int, k as int));
        let ghost r0 = r.deep_view();
        r.push(
            Instruction::ArrayGet {
                dest: temp.clone(),
                array: Operand::Variable { name: array.name.clone(),
                    ty: carrier_array_type(array) },
                index: Operand::Constant(Constant::I32(k as i32)),
            },
        );
        r.push(
            Instruction::Cast {
                op: Operand::Variable { name: temp, ty: array.element_type.dup() },
                ty: variable.ty.dup(),
                dest: cat2(RESTORE_PREFIX, variable.name.as_str()),
            },
        );
        assert(r.deep_view() =~= r0 + load(all, v));
    }
    assert(lv.take(lv.len() as int) =~= lv);
    r
}

proof fn lemma_arrays(per_kind: Seq<Seq<VariableModel>>, n: nat, a: int) -> (c: int)
    requires
        n <= per_kind.len(),
        0 <= a < arrays_of(per_kind, n).len(),
    ensures
        0 <= c < n,
        arrays_of(per_kind, n)[a] == array_of(c as nat, per_kind[c]),
    decreases n,
{
    let front = arrays_of(per_kind, (n - 1) as nat);
    if a < front.len() {
        lemma_arrays(per_kind, (n - 1) as nat, a)
    } else {
        n - 1
    }
}

proof fn lemma_kind_has_array(per_kind: Seq<Seq<VariableModel>>, n: nat, c: int) -> (a: int)
    requires
        n <= per_kind.len(),
        0 <= c < n,
        per_kind[c].len() > 0,
    ensures
        0 <= a < arrays_of(per_kind, n).len(),
        arrays_of(per_kind, n)[a] == array_of(c as nat, per_kind[c]),
    decreases n,
{
    let front = arrays_of(per_kind, (n - 1) as nat);
    if c == n - 1 {
        front.len() as int
    } else {
        let a = lemma_kind_has_array(per_kind, (n - 1) as nat, c);
        a
    }
}

/// Every kind number is below the number of kinds.
pub proof fn category_is_bounded(ty: TypeModel)
    ensures
        category_of(ty).0 < CATEGORIES,
{
}

/// In a carrier every variable that is live on entry to a later part has exactly one slot, and the
/// array of the slot has the element type of the variable's kind.
pub proof fn carrier_has_a_slot_for_each_live_variable(
    live: Map<Text, Seq<VariableModel>>,
    entries: Seq<Seq<Text>>,
    arrays: Seq<CarrierArrayModel>,
    v: VariableModel,
)
    requires
        is_carrier(live, entries, arrays),
        live_later(live, entries, v),
    ensures
        slots_distinct(arrays),
        exists|a: int, i: int|
            #![trigger arrays[a].variables[i]]
            0 <= a < arrays.len() && 0 <= i < arrays[a].variables.len()
                && arrays[a].variables[i] == v
                && arrays[a].element_type == category_of(v.1).1,
        forall|a: int, b: int, i: int, j: int|
            #![trigger arrays[a].variables[i], arrays[b].variables[j]]
            0 <= a < arrays.len() && 0 <= i < arrays[a].variables.len()
                && arrays[a].variables[i] == v && 0 <= b
                < arrays.len() && 0 <= j < arrays[b].variables.len() && arrays[b].variables[j] == v
                    ==> arrays[a].variables == arrays[b].variables && i == j,
{
    let per_kind = choose|per_kind: Seq<Seq<VariableModel>>| #[trigger]
        listed_by_kind(live, entries, per_kind) && arrays == arrays_of(per_kind, CATEGORIES as nat);
    lemma_slots_distinct(live, entries, arrays);
    let c = category_of(v.1).0 as int;
    category_is_bounded(v.1);
    assert(is_category_list(live, entries, c as nat, per_kind[c]));
    assert(per_kind[c].contains(v));
    let i = choose|i: int| 0 <= i < per_kind[c].len() && per_kind[c][i] == v;
    let a = lemma_kind_has_array(per_kind, CATEGORIES as nat, c);
    assert(per_kind[c].contains(per_kind[c][0]));
    lemma_category_element(v.1, per_kind[c][0].1);
    assert(arrays[a].variables[i] == v);
    assert forall|a: int, b: int, i: int, j: int|
            #![trigger arrays[a].variables[i], arrays[b].variables[j]]
            0 <= a < arrays.len() && 0 <= i < arrays[a].variables.len()
                && arrays[a].variables[i] == v && 0 <= b
                < arrays.len() && 0 <= j < arrays[b].variables.len() && arrays[b].variables[j] == v
                    implies arrays[a].variables == arrays[b].variables && i == j by {
        let x = lemma_arrays(per_kind, CATEGORIES as nat, a);
        let y = lemma_arrays(per_kind, CATEGORIES as nat, b);
        assert(is_category_list(live, entries, x as nat, per_kind[x]));
        assert(is_category_list(live, entries, y as nat, per_kind[y]));
        assert(per_kind[x].contains(v) && per_kind[y].contains(v));
        assert(x == y);
    }
}

/// The kind of a type determines the type of the elements of its array.
pub proof fn lemma_category_element(a: TypeModel, b: TypeModel)
    requires
        category_of(a).0 == category_of(b).0,
    ensures
        category_of(a).1 == category_of(b).1,
{
}

/// No array of a carrier holds a variable twice.
pub proof fn lemma_slots_distinct(
    live: Map<Text, Seq<VariableModel>>,
    entries: Seq<Seq<Text>>,
    arrays: Seq<CarrierArrayModel>,
)
    requires
        is_carrier(live, entries, arrays),
    ensures
        slots_distinct(arrays),
{
    let per_kind = choose|per_kind: Seq<Seq<VariableModel>>| #[trigger]
        listed_by_kind(live, entries, per_kind) && arrays == arrays_of(per_kind, CATEGORIES as nat);
    assert forall|a: int| 0 <= a < arrays.len() implies (
        #[trigger] arrays[a]
    ).variables.no_duplicates() by {
        let c = lemma_arrays(per_kind, CATEGORIES as nat, a);
        assert(is_category_list(live, entries, c as nat, per_kind[c]));
    }
}

} // verus!
