//! Which variables are live on entry to each block of a function body.
use crate::flow::{
    block_unwind_only_successors,
    defines,
    definitions_of,
    instruction_definitions,
    insert_variable,
    instruction_uses,
    successor_model,
    successors_of,
    unwind_only,
    uses_of,
    variable_less,
    variable_position,
    variables_sorted,
    Variable,
    VariableModel,
    VariableTypes,
    UNWIND_EXCEPTION_LOCAL,
};
use crate::graph::{lemma_unset_update, unset};
use crate::name_map::NameMap;
use crate::oomir::{BasicBlock, CodeBlock, CodeBlockModel, Duplicate, InstructionModel, Text,
    TypeModel};
use crate::text::same;
use vstd::prelude::*;

verus! {

/// A data-flow problem over numbered blocks and variables.
struct Problem {
    /// The successors of each block.
    succ: Vec<Vec<usize>>,
    /// For each successor, whether the block only reaches it by unwinding.
    unwind: Vec<Vec<bool>>,
    /// The variables that each block reads before it defines them.
    reads: Vec<Vec<bool>>,
    /// The variables that each block defines.
    kills: Vec<Vec<bool>>,
    /// The variables that an exception handler defines.
    handler: Vec<bool>,
}

impl Problem {
    spec fn valid(self) -> bool {
        let n = self.succ@.len();
        &&& self.unwind@.len() == n
        &&& self.reads@.len() == n
        &&& self.kills@.len() == n
        &&& forall|b: int| 0 <= b < n ==> (
            #[trigger] self.unwind@[b]
        )@.len() == self.succ@[b]@.len()
        &&& forall|b: int| 0 <= b < n ==> (#[trigger] self.reads@[b])@.len() == self.handler@.len()
        &&& forall|b: int| 0 <= b < n ==> (#[trigger] self.kills@[b])@.len() == self.handler@.len()
        &&& forall|b: int, e: int|
            0 <= b < n && 0 <= e < self.succ@[b]@.len() ==> (#[trigger] self.succ@[b]@[e]) < n
    }

    /// Whether variable `v` survives backwards through block `b` along its edge `e`.
    spec fn passes(self, b: int, e: int, v: int) -> bool {
        !self.kills@[b]@[v] && !(self.unwind@[b]@[e] && self.handler@[v])
    }

    /// Whether a path of at most `fuel` edges from block `b` reads variable `v`.
    spec fn live_within(self, fuel: nat, b: int, v: int) -> bool
        decreases fuel,
    {
        self.reads@[b]@[v] || (fuel > 0 && exists|e: int|
            0 <= e < self.succ@[b]@.len() && #[trigger] self.passes(b, e, v) && self.live_within(
                (fuel - 1) as nat,
                self.succ@[b]@[e] as int,
                v,
            ))
    }

    /// Whether variable `v` is live on entry to block `b`.
    spec fn live(self, b: int, v: int) -> bool {
        exists|fuel: nat| #[trigger] self.live_within(fuel, b, v)
    }
}

spec fn rows(v: Seq<Vec<bool>>) -> Seq<Seq<bool>> {
    Seq::new(v.len(), |i: int| v[i]@)
}

/// The number of flags that are not set in all rows.
spec fn missing(r: Seq<Seq<bool>>) -> nat
    decreases r.len(),
{
    if r.len() == 0 {
        0
    } else {
        missing(r.drop_last()) + unset(r.last())
    }
}

proof fn lemma_missing_update(r: Seq<Seq<bool>>, b: int, row: Seq<bool>)
    requires
        0 <= b < r.len(),
    ensures
        missing(r.update(b, row)) + unset(r[b]) == missing(r) + unset(row),
    decreases r.len(),
{
    if b == r.len() - 1 {
        assert(r.update(b, row).drop_last() =~= r.drop_last());
    } else {
        assert(r.update(b, row).drop_last() =~= r.drop_last().update(b, row));
        lemma_missing_update(r.drop_last(), b, row);
    }
}

proof fn lemma_live_step(p: Problem, b: int, e: int, v: int)
    requires
        0 <= b < p.succ@.len(),
        0 <= e < p.succ@[b]@.len(),
        p.passes(b, e, v),
        p.live(p.succ@[b]@[e] as int, v),
    ensures
        p.live(b, v),
{
    let fuel = choose|fuel: nat| #[trigger] p.live_within(fuel, p.succ@[b]@[e] as int, v);
    assert(p.live_within(fuel + 1, b, v)) by {
        assert((fuel + 1 - 1) as nat == fuel);
    }
}

/// A set of flags that holds the reads and is closed under the edges holds everything live.
proof fn lemma_closed_holds_live(p: Problem, r: Seq<Seq<bool>>, fuel: nat, b: int, v: int)
    requires
        p.valid(),
        r.len() == p.succ@.len(),
        0 <= b < r.len(),
        0 <= v < p.handler@.len(),
        forall|b: int, v: int| 0 <= b < r.len() && 0 <= v < p.handler@.len() && p.reads@[b]@[v]
            ==> #[trigger] r[b][v],
        forall|b: int, e: int, v: int|
            0 <= b < r.len() && 0 <= e < p.succ@[b]@.len() && 0 <= v < p.handler@.len()
                && #[trigger] p.passes(b, e, v)
                && r[p.succ@[b]@[e] as int][v] ==> r[b][v],
        p.live_within(fuel, b, v),
    ensures
        r[b][v],
    decreases fuel,
{
    if !p.reads@[b]@[v] {
        let e = choose|e: int|
            0 <= e < p.succ@[b]@.len() && #[trigger] p.passes(b, e, v) && p.live_within(
                (fuel - 1) as nat,
                p.succ@[b]@[e] as int,
                v,
            );
        lemma_closed_holds_live(p, r, (fuel - 1) as nat, p.succ@[b]@[e] as int, v);
    }
}

/// The variables that are live on entry to each block.
fn solve(p: &Problem) -> (r: Vec<Vec<bool>>)
    requires
        p.valid(),
    ensures
        r@.len() == p.succ@.len(),
        forall|b: int| 0 <= b < r@.len() ==> (#[trigger] r@[b])@.len() == p.handler@.len(),
        forall|b: int, v: int|
            0 <= b < r@.len() && 0 <= v < p.handler@.len() ==> (
                #[trigger] r@[b]@[v] <==> p.live(b, v)
            ),
{
    let n: usize = p.succ.len();
    let m: usize = p.handler.len();
    let mut live: Vec<Vec<bool>> = Vec::new();
    for b in 0..n
        invariant
            p.valid(),
            n == p.succ@.len(),
            live@.len() == b,
            forall|k: int| 0 <= k < b ==> (#[trigger] live@[k])@ == p.reads@[k]@,
    {
        live.push(p.reads[b].clone());
        assert(live@[b as int]@ =~= p.reads@[b as int]@);
    }
    proof {
        assert forall|b: int, v: int| 0 <= b < n && 0 <= v < m && #[trigger] live@[b]@[v]
            implies p.live(b, v) by {
            assert(p.live_within(0, b, v));
        }
    }
    let mut changed: bool = true;
    while changed
        invariant
            p.valid(),
            n == p.succ@.len(),
            m == p.handler@.len(),
            live@.len() == n,
            forall|b: int| 0 <= b < n ==> (#[trigger] live@[b])@.len() == m,
            forall|b: int, v: int| 0 <= b < n && 0 <= v < m && p.reads@[b]@[v]
                ==> #[trigger] live@[b]@[v],
            forall|b: int, v: int| 0 <= b < n && 0 <= v < m && #[trigger] live@[b]@[v]
                ==> p.live(b, v),
            !changed ==> forall|b: int, e: int, v: int|
                0 <= b < n && 0 <= e < p.succ@[b]@.len() && 0 <= v < m
                    && #[trigger] p.passes(b, e, v)
                    && live@[p.succ@[b]@[e] as int]@[v] ==> live@[b]@[v],
        decreases missing(rows(live@)) + (if changed { 1int } else { 0int }),
    {
        changed = false;
        let ghost start = rows(live@);
        let mut b: usize = 0;
        while b < n
            invariant
                p.valid(),
                n == p.succ@.len(),
                m == p.handler@.len(),
                b <= n,
                live@.len() == n,
                start.len() == n,
                forall|b: int| 0 <= b < n ==> (#[trigger] live@[b])@.len() == m,
                forall|b: int, v: int| 0 <= b < n && 0 <= v < m && p.reads@[b]@[v]
                    ==> #[trigger] live@[b]@[v],
                forall|b: int, v: int| 0 <= b < n && 0 <= v < m && #[trigger] live@[b]@[v]
                    ==> p.live(b, v),
                !changed ==> rows(live@) == start,
                changed ==> missing(rows(live@)) < missing(start),
                !changed ==> forall|k: int, e: int, v: int|
                    0 <= k < b && 0 <= e < p.succ@[k]@.len() && 0 <= v < m
                        && #[trigger] p.passes(k, e, v)
                        && live@[p.succ@[k]@[e] as int]@[v] ==> live@[k]@[v],
            decreases n - b,
        {
            let ghost live0 = live@;
            let ghost changed0 = changed;
            let mut row: Vec<bool> = live[b].clone();
            assert(row@ =~= live@[b as int]@);
            let mut e: usize = 0;
            while e < p.succ[b].len()
                invariant
                    p.valid(),
                    n == p.succ@.len(),
                    m == p.handler@.len(),
                    b < n,
                    live@ == live0,
                    live@.len() == n,
                    row@.len() == m,
                    e <= p.succ@[b as int]@.len(),
                    forall|b: int| 0 <= b < n ==> (#[trigger] live@[b])@.len() == m,
                    forall|b: int, v: int| 0 <= b < n && 0 <= v < m && #[trigger] live@[b]@[v]
                        ==> p.live(b, v),
                    forall|v: int| 0 <= v < m && live0[b as int]@[v] ==> #[trigger] row@[v],
                    forall|v: int| 0 <= v < m && #[trigger] row@[v] ==> p.live(b as int, v),
                    changed0 ==> changed,
                    unset(row@) <= unset(live0[b as int]@),
                    changed != changed0 ==> unset(row@) < unset(live0[b as int]@),
                    changed == changed0 ==> changed || row@ == live0[b as int]@,
                    forall|k: int, v: int|
                        0 <= k < e && 0 <= v < m && #[trigger] p.passes(b as int, k, v)
                            && live0[p.succ@[b as int]@[k] as int]@[v] ==> row@[v],
                decreases p.succ@[b as int]@.len() - e,
            {
                let s: usize = p.succ[b][e];
                let ghost row0 = row@;
                let mut v: usize = 0;
                while v < m
                    invariant
                        p.valid(),
                        n == p.succ@.len(),
                        m == p.handler@.len(),
                        b < n,
                        live@ == live0,
                        live@.len() == n,
                        e < p.succ@[b as int]@.len(),
                        s == p.succ@[b as int]@[e as int],
                        s < n,
                        v <= m,
                        row@.len() == m,
                        row0.len() == m,
                        forall|b: int| 0 <= b < n ==> (#[trigger] live@[b])@.len() == m,
                        forall|b: int, v: int| 0 <= b < n && 0 <= v < m && #[trigger] live@[b]@[v]
                            ==> p.live(b, v),
                        forall|v: int| 0 <= v < m && row0[v] ==> #[trigger] row@[v],
                        forall|v: int| 0 <= v < m && live0[b as int]@[v] ==> #[trigger] row@[v],
                        forall|v: int| 0 <= v < m && #[trigger] row@[v] ==> p.live(b as int, v),
                        changed0 ==> changed,
                        unset(row@) <= unset(live0[b as int]@),
                        changed != changed0 ==> unset(row@) < unset(live0[b as int]@),
                        changed == changed0 ==> changed || row@ == live0[b as int]@,
                        forall|w: int|
                            0 <= w < v && #[trigger] p.passes(
                                b as int,
                                e as int,
                                w,
                            ) && live0[s as int]@[w] ==> row@[w],
                    decreases m - v,
                {
                    if live[s][v] && !p.kills[b][v] && !(
                        p.unwind[b][e] && p.handler[v]
                    ) && !row[v] {
                        proof {
                            lemma_unset_update(row@, v as int);
                            assert(p.passes(b as int, e as int, v as int));
                            lemma_live_step(*p, b as int, e as int, v as int);
                        }
                        row.set(v, true);
                        changed = true;
                    }
                    v = v + 1;
                }
                assert forall|k: int, v: int|
                        0 <= k < e + 1 && 0 <= v < m && #[trigger] p.passes(b as int, k, v)
                            && live0[p.succ@[b as int]@[k] as int]@[v] implies row@[v] by {
                    if k < e {
                        assert(row0[v]);
                    }
                }
                e = e + 1;
            }
            proof {
                lemma_missing_update(rows(live0), b as int, row@);
            }
            live.set(b, row);
            proof {
                assert(rows(live@) =~= rows(live0).update(b as int, row@));
                if !changed {
                    assert(rows(live@) =~= rows(live0));
                    assert forall|k: int| 0 <= k < n implies (#[trigger] live@[k])@ == live0[k]@
                        by {
                        assert(rows(live@)[k] == rows(live0)[k]);
                    }
                    assert forall|k: int, e: int, v: int|
                    0 <= k < b + 1 && 0 <= e < p.succ@[k]@.len() && 0 <= v < m
                        && #[trigger] p.passes(k, e, v)
                        && live@[p.succ@[k]@[e] as int]@[v] implies live@[k]@[v] by {
                        assert(p.succ@[k]@[e] < n);
                        assert(live@[p.succ@[k]@[e] as int]@ == live0[p.succ@[k]@[e] as int]@);
                        assert(live@[k]@ == live0[k]@);
                    }
                }
            }
            b = b + 1;
        }
    }
    proof {
        let r = rows(live@);
        assert forall|b: int, v: int| 0 <= b < live@.len() && 0 <= v < m implies (
            #[trigger] live@[b]@[v] <==> p.live(b, v)
        ) by {
            if p.live(b, v) {
                let fuel = choose|fuel: nat| #[trigger] p.live_within(fuel, b, v);
                assert forall|b: int, v: int| 0 <= b < r.len() && 0 <= v < m && p.reads@[b]@[v]
                    implies #[trigger] r[b][v] by {
                    assert(live@[b]@[v]);
                }
                assert forall|b: int, e: int, v: int|
            0 <= b < r.len() && 0 <= e < p.succ@[b]@.len() && 0 <= v < m
                && #[trigger] p.passes(b, e, v)
                && r[p.succ@[b]@[e] as int][v] implies r[b][v] by {
                    assert(live@[p.succ@[b]@[e] as int]@[v]);
                    assert(live@[b]@[v]);
                }
                lemma_closed_holds_live(*p, r, fuel, b, v);
            }
        }
    }
    live
}

/// Whether the instruction at `k` reads `v` and none in front of it defines the name.
pub open spec fn reads_at(
    instructions: Seq<InstructionModel>,
    types: Map<Text, Seq<TypeModel>>,
    v: VariableModel,
    k: int,
) -> bool {
    &&& 0 <= k < instructions.len()
    &&& uses_of(instructions[k], types).contains(v)
    &&& forall|j: int| 0 <= j < k ==> !(#[trigger] defines(instructions[j], v.0))
}

/// Whether instructions read `v` before they define its name.
pub open spec fn exposed(
    instructions: Seq<InstructionModel>,
    types: Map<Text, Seq<TypeModel>>,
    v: VariableModel,
) -> bool {
    exists|k: int| #[trigger] reads_at(instructions, types, v, k)
}

/// Whether one of the instructions defines a name.
pub open spec fn defined(instructions: Seq<InstructionModel>, name: Text) -> bool {
    exists|k: int| 0 <= k < instructions.len() && #[trigger] defines(instructions[k], name)
}

/// Whether a variable that is live on entry to the successor `s` is needed by the block in front:
/// the exception that a handler defines does not count along an edge that only unwinds.
pub open spec fn carried(instructions: Seq<InstructionModel>, s: Text, v: VariableModel) -> bool {
    successors_of(instructions).contains(s) && !(unwind_only(instructions, s) && v.0
        == UNWIND_EXCEPTION_LOCAL@)
}

/// Whether a path of at most `fuel` edges from a block reads `v` before it defines its name.
pub open spec fn live_within(
    body: CodeBlockModel,
    types: Map<Text, Seq<TypeModel>>,
    fuel: nat,
    label: Text,
    v: VariableModel,
) -> bool
    decreases fuel,
{
    let instructions = body.basic_blocks[label].instructions;
    exposed(
        instructions,
        types,
        v,
    ) || (fuel > 0 && !defined(instructions, v.0) && exists|s: Text| #[trigger]
        carried(instructions, s, v) && live_within(body, types, (fuel - 1) as nat, s, v))
}

/// Whether `v` is live on entry to a block: some path from it reads the variable before it defines
/// the name.
pub open spec fn live_on_entry(
    body: CodeBlockModel,
    types: Map<Text, Seq<TypeModel>>,
    label: Text,
    v: VariableModel,
) -> bool {
    exists|fuel: nat| #[trigger] live_within(body, types, fuel, label, v)
}

/// Whether every label that a block transfers to is a block.
pub open spec fn closed_body(body: CodeBlockModel) -> bool {
    forall|label: Text, s: Text|
        body.basic_blocks.dom().contains(label) && #[trigger] successors_of(
            body.basic_blocks[label].instructions,
        ).contains(s) ==> body.basic_blocks.dom().contains(s)
}

fn names_hold(names: &Vec<String>, name: &str) -> (r: bool)
    ensures
        r == names.deep_view().contains(name@),
{
    let mut i: usize = 0;
    while i < names.len()
        invariant
            i <= names@.len(),
            forall|k: int| 0 <= k < i ==> (#[trigger] names@[k])@ != name@,
        decreases names@.len() - i,
    {
        if same(names[i].as_str(), name) {
            assert(names.deep_view()[i as int] == name@);
            return true;
        }
        i = i + 1;
    }
    proof {
        if names.deep_view().contains(name@) {
            let k = choose|k: int| 0 <= k < names.deep_view().len()
                && names.deep_view()[k] == name@;
            assert(names@[k]@ == name@);
        }
    }
    false
}

/// The variables that a block reads before it defines them, and the names that it defines.
fn summary(block: &BasicBlock, types: &VariableTypes) -> (r: (Vec<Variable>, Vec<String>))
    ensures
        forall|v: VariableModel| #[trigger] r.0.deep_view().contains(v) <==> exposed(
            block.deep_view().instructions,
            types.deep_view(),
            v,
        ),
        forall|name: Text| #[trigger] r.1.deep_view().contains(name) <==> defined(
            block.deep_view().instructions,
            name,
        ),
{
    let ghost all = block.deep_view().instructions;
    let ghost tys = types.deep_view();
    let mut reads: Vec<Variable> = Vec::new();
    let mut names: Vec<String> = Vec::new();
    for i in 0..block.instructions.len()
        invariant
            all == block.deep_view().instructions,
            tys == types.deep_view(),
            forall|v: VariableModel| #[trigger] reads.deep_view().contains(v)
                <==> exists|k: int| 0 <= k < i && #[trigger] reads_at(all, tys, v, k),
            forall|name: Text| #[trigger] names.deep_view().contains(name)
                <==> exists|k: int| 0 <= k < i && #[trigger] defines(all[k], name),
    {
        let uses = instruction_uses(&block.instructions[i], types);
        assert(all[i as int] == block.instructions@[i as int].deep_view());
        let ghost used = uses.deep_view();
        let ghost reads0 = reads.deep_view();
        let ghost names0 = names.deep_view();
        for u in 0..uses.len()
            invariant
                used == uses.deep_view(),
                names0 == names.deep_view(),
                forall|v: VariableModel| #[trigger] reads.deep_view().contains(v)
                    <==> reads0.contains(v) || (used.take(u as int).contains(v)
                    && !names0.contains(v.0)),
        {
            let ghost reads1 = reads.deep_view();
            let ghost v = used[u as int];
            assert(v == uses@[u as int].deep_view());
            proof {
                let now = used.take(u + 1);
                assert forall|w: VariableModel| #[trigger] now.contains(w)
                    <==> used.take(u as int).contains(w) || w == v by {
                    if used.take(u as int).contains(w) {
                        let k = choose|k: int| 0 <= k < u && used.take(u as int)[k] == w;
                        assert(now[k] == w);
                    }
                    assert(now[u as int] == v);
                    if now.contains(w) && w != v {
                        let k = choose|k: int| 0 <= k < u + 1 && now[k] == w;
                        assert(used.take(u as int)[k] == w);
                    }
                }
            }
            if !names_hold(&names, uses[u].name.as_str()) {
                reads.push(uses[u].dup());
                proof {
                    assert(reads.deep_view() =~= reads1.push(v));
                    assert forall|w: VariableModel| #[trigger] reads.deep_view().contains(w)
                        <==> reads1.contains(w) || w == v by {
                        if reads1.contains(w) {
                            let k = choose|k: int| 0 <= k < reads1.len() && reads1[k] == w;
                            assert(reads.deep_view()[k] == w);
                        }
                        assert(reads.deep_view()[reads1.len() as int] == v);
                    }
                }
            }
        }
        assert(used.take(used.len() as int) =~= used);
        let definitions = instruction_definitions(&block.instructions[i]);
        assert(definitions.deep_view() == definitions_of(all[i as int]));
        assert(definitions.deep_view().len() == definitions@.len());
        assert(
            definitions@.len() > 0 ==> definitions.deep_view()[0] == definitions@[0].deep_view()
        );
        if definitions.len() > 0 {
            names.push(definitions[0].name.clone());
            assert(names.deep_view() =~= names0.push(definitions.deep_view()[0].0));
        }
        proof {
            assert forall|name: Text| #[trigger] names.deep_view().contains(name)
                <==> names0.contains(name) || defines(all[i as int], name) by {
                if names0.contains(name) {
                    let k = choose|k: int| 0 <= k < names0.len() && names0[k] == name;
                    assert(names.deep_view()[k] == name);
                }
                if defines(all[i as int], name) {
                    assert(names.deep_view()[names0.len() as int] == name);
                }
            }
            assert forall|name: Text| #[trigger] names.deep_view().contains(name)
                <==> exists|k: int| 0 <= k < i + 1 && #[trigger] defines(all[k], name) by {
                assert(names0.contains(name) <==> exists|k: int| 0 <= k < i
                    && #[trigger] defines(all[k], name));
            }
            assert forall|v: VariableModel| #[trigger] reads.deep_view().contains(v)
                <==> exists|k: int| 0 <= k < i + 1 && #[trigger] reads_at(all, tys, v, k) by {
                assert(reads0.contains(v) <==> exists|k: int| 0 <= k < i
                    && #[trigger] reads_at(all, tys, v, k));
                assert(names0.contains(v.0) <==> exists|k: int| 0 <= k < i
                    && #[trigger] defines(all[k], v.0));
                assert(
                    reads_at(all, tys, v, i as int) <==> used.contains(v) && !names0.contains(v.0)
                );
            }
        }
    }
    proof {
        assert forall|v: VariableModel| #[trigger] reads.deep_view().contains(v)
            <==> exposed(all, tys, v) by {
            if exposed(all, tys, v) {
                let k = choose|k: int| #[trigger] reads_at(all, tys, v, k);
                assert(0 <= k < all.len() && reads_at(all, tys, v, k));
            }
        }
    }
    (reads, names)
}

/// Whether a problem states the liveness of a body whose blocks are numbered by `keys`, for the
/// variables in `universe`.
spec fn represents(
    p: Problem,
    body: CodeBlockModel,
    types: Map<Text, Seq<TypeModel>>,
    keys: Seq<Text>,
    universe: Seq<VariableModel>,
) -> bool {
    &&& p.valid()
    &&& keys.len() == p.succ@.len()
    &&& universe.len() == p.handler@.len()
    &&& forall|b: int| 0 <= b < keys.len() ==> #[trigger] block_stated(
        p,
        body,
        types,
        keys,
        universe,
        b,
    )
    &&& forall|v: int| 0 <= v < universe.len() ==> (
        #[trigger] p.handler@[v] <==> universe[v].0 == UNWIND_EXCEPTION_LOCAL@
    )
}

spec fn block_stated(
    p: Problem,
    body: CodeBlockModel,
    types: Map<Text, Seq<TypeModel>>,
    keys: Seq<Text>,
    universe: Seq<VariableModel>,
    b: int,
) -> bool {
    let instructions = body.basic_blocks[keys[b]].instructions;
    let out = successors_of(instructions);
    &&& p.succ@[b]@.len() == out.len()
    &&& forall|e: int| 0 <= e < out.len() ==> keys[(#[trigger] p.succ@[b]@[e]) as int] == out[e]
    &&& forall|e: int| 0 <= e < out.len() ==> (
        #[trigger] p.unwind@[b]@[e] <==> unwind_only(instructions, out[e])
    )
    &&& forall|v: int| 0 <= v < universe.len() ==> (
        #[trigger] p.reads@[b]@[v] <==> exposed(instructions, types, universe[v])
    )
    &&& forall|v: int| 0 <= v < universe.len() ==> (
        #[trigger] p.kills@[b]@[v] <==> defined(instructions, universe[v].0)
    )
}

proof fn lemma_represents(
    p: Problem,
    body: CodeBlockModel,
    types: Map<Text, Seq<TypeModel>>,
    keys: Seq<Text>,
    universe: Seq<VariableModel>,
    fuel: nat,
    b: int,
    v: int,
)
    requires
        represents(p, body, types, keys, universe),
        0 <= b < keys.len(),
        0 <= v < universe.len(),
    ensures
        p.live_within(fuel, b, v) == live_within(body, types, fuel, keys[b], universe[v]),
    decreases fuel,
{
    let instructions = body.basic_blocks[keys[b]].instructions;
    let out = successors_of(instructions);
    assert(block_stated(p, body, types, keys, universe, b));
    assert(p.reads@[b]@[v] <==> exposed(instructions, types, universe[v]));
    assert(p.kills@[b]@[v] <==> defined(instructions, universe[v].0));
    if fuel > 0 {
        if p.live_within(fuel, b, v) && !p.reads@[b]@[v] {
            let e = choose|e: int|
                0 <= e < p.succ@[b]@.len() && #[trigger] p.passes(b, e, v) && p.live_within(
                    (fuel - 1) as nat,
                    p.succ@[b]@[e] as int,
                    v,
                );
            assert(p.succ@[b]@[e] < keys.len());
            lemma_represents(
                p,
                body,
                types,
                keys,
                universe,
                (fuel - 1) as nat,
                p.succ@[b]@[e] as int,
                v,
            );
            assert(p.unwind@[b]@[e] <==> unwind_only(instructions, out[e]));
            assert(p.handler@[v] <==> universe[v].0 == UNWIND_EXCEPTION_LOCAL@);
            assert(carried(instructions, out[e], universe[v]));
        }
        if live_within(
            body,
            types,
            fuel,
            keys[b],
            universe[v],
        ) && !exposed(instructions, types, universe[v]) {
            let s = choose|s: Text| #[trigger] carried(
                instructions,
                s,
                universe[v],
            ) && live_within(body, types, (fuel - 1) as nat, s, universe[v]);
            let e = choose|e: int| 0 <= e < out.len() && out[e] == s;
            assert(p.succ@[b]@[e] < keys.len());
            assert(keys[p.succ@[b]@[e] as int] == s);
            lemma_represents(
                p,
                body,
                types,
                keys,
                universe,
                (fuel - 1) as nat,
                p.succ@[b]@[e] as int,
                v,
            );
            assert(p.unwind@[b]@[e] <==> unwind_only(instructions, out[e]));
            assert(p.handler@[v] <==> universe[v].0 == UNWIND_EXCEPTION_LOCAL@);
            assert(p.passes(b, e, v));
        }
    }
}

/// Only variables that some block reads before it defines them are live anywhere.
proof fn lemma_live_is_exposed(
    body: CodeBlockModel,
    types: Map<Text, Seq<TypeModel>>,
    fuel: nat,
    label: Text,
    v: VariableModel,
)
    requires
        closed_body(body),
        body.basic_blocks.dom().contains(label),
        live_within(body, types, fuel, label, v),
    ensures
        exists|l: Text| #[trigger] body.basic_blocks.dom().contains(l) && exposed(
            body.basic_blocks[l].instructions,
            types,
            v,
        ),
    decreases fuel,
{
    let instructions = body.basic_blocks[label].instructions;
    if !exposed(instructions, types, v) {
        let s = choose|s: Text| #[trigger] carried(instructions, s, v) && live_within(
            body,
            types,
            (fuel - 1) as nat,
            s,
            v,
        );
        assert(successors_of(instructions).contains(s));
        lemma_live_is_exposed(body, types, (fuel - 1) as nat, s, v);
    }
}

/// The variables that some block reads before it defines them, in sorted order.
fn universe_of(summaries: &Vec<(Vec<Variable>, Vec<String>)>) -> (universe: Vec<Variable>)
    ensures
        universe.deep_view().no_duplicates(),
        variables_sorted(universe.deep_view()),
        forall|v: VariableModel| #[trigger] universe.deep_view().contains(v) <==> exists|b: int|
            0 <= b < summaries@.len() && (#[trigger] summaries@[b]).0.deep_view().contains(v),
{
    let mut universe: Vec<Variable> = Vec::new();
    let mut b: usize = 0;
    while b < summaries.len()
        invariant
            b <= summaries@.len(),
            universe.deep_view().no_duplicates(),
            variables_sorted(universe.deep_view()),
            forall|v: VariableModel| #[trigger] universe.deep_view().contains(v) <==> exists|k: int|
                0 <= k < b && (#[trigger] summaries@[k]).0.deep_view().contains(v),
        decreases summaries@.len() - b,
    {
        let reads = &summaries[b].0;
        let ghost u0 = universe.deep_view();
        let ghost all = reads.deep_view();
        let mut i: usize = 0;
        while i < reads.len()
            invariant
                i <= reads@.len(),
                all == reads.deep_view(),
                universe.deep_view().no_duplicates(),
                variables_sorted(universe.deep_view()),
                forall|v: VariableModel| #[trigger] universe.deep_view().contains(v)
                    <==> u0.contains(v) || exists|k: int| 0 <= k < i && #[trigger] all[k] == v,
            decreases reads@.len() - i,
        {
            let ghost u1 = universe.deep_view();
            assert(all[i as int] == reads@[i as int].deep_view());
            insert_variable(&mut universe, reads[i].dup());
            assert forall|v: VariableModel| #[trigger] universe.deep_view().contains(v)
                <==> u0.contains(v) || exists|k: int| 0 <= k < i + 1 && #[trigger] all[k] == v by {
                assert(universe.deep_view().contains(v) <==> u1.contains(v) || v == all[i as int]);
            }
            i = i + 1;
        }
        assert forall|v: VariableModel| #[trigger] universe.deep_view().contains(v)
            <==> exists|k: int|
                0 <= k < b + 1 && (#[trigger] summaries@[k]).0.deep_view().contains(v) by {
            assert(all.contains(v) <==> exists|k: int| 0 <= k < i && #[trigger] all[k] == v);
            assert(u0.contains(v) <==> exists|k: int| 0 <= k < b && (
                #[trigger] summaries@[k]
            ).0.deep_view().contains(v));
            if all.contains(v) {
                assert(summaries@[b as int].0.deep_view().contains(v));
            }
        }
        b = b + 1;
    }
    universe
}

/// The variables that are live on entry to each block, as sorted lists without repetition.
pub type LiveVariables = NameMap<Vec<Variable>>;

/// Computes the variables that are live on entry to each block.
pub fn live_variables(
    body: &CodeBlock,
    successors: &NameMap<Vec<String>>,
    variable_types: &VariableTypes,
) -> (live: LiveVariables)
    requires
        closed_body(body.deep_view()),
        successors.deep_view() == successor_model(body.deep_view()),
    ensures
        live.deep_view().dom() == body.deep_view().basic_blocks.dom(),
        forall|label: Text| #[trigger] live.deep_view().dom().contains(label) ==> is_live_list(
            body.deep_view(),
            variable_types.deep_view(),
            label,
            live.deep_view()[label],
        ),
{
    let blocks = &body.basic_blocks;
    blocks.check();
    let n: usize = blocks.len();
    let ghost model = body.deep_view();
    let ghost types = variable_types.deep_view();
    let ghost keys = blocks.keys();
    let mut summaries: Vec<(Vec<Variable>, Vec<String>)> = Vec::new();
    for b in 0..n
        invariant
            n == keys.len(),
            keys == blocks.keys(),
            *blocks == body.basic_blocks,
            blocks.consistent(),
            model == body.deep_view(),
            types == variable_types.deep_view(),
            summaries@.len() == b,
            forall|k: int, v: VariableModel| 0 <= k < b ==> (
                #[trigger] summaries@[k].0.deep_view().contains(v) <==> exposed(
                    model.basic_blocks[keys[k]].instructions,
                    types,
                    v,
                )
            ),
            forall|k: int, name: Text| 0 <= k < b ==> (
                #[trigger] summaries@[k].1.deep_view().contains(name) <==> defined(
                    model.basic_blocks[keys[k]].instructions,
                    name,
                )
            ),
    {
        assert(model.basic_blocks[keys[b as int]] == blocks.values()[b as int].deep_view());
        summaries.push(summary(blocks.value_at(b), variable_types));
    }
    let universe = universe_of(&summaries);
    let ghost vars = universe.deep_view();
    let m: usize = universe.len();
    let mut handler: Vec<bool> = Vec::new();
    for v in 0..m
        invariant
            m == universe@.len(),
            vars == universe.deep_view(),
            handler@.len() == v,
            forall|k: int| 0 <= k < v ==> (
                #[trigger] handler@[k] <==> vars[k].0 == UNWIND_EXCEPTION_LOCAL@
            ),
    {
        handler.push(same(universe[v].name.as_str(), UNWIND_EXCEPTION_LOCAL));
    }
    let mut p = Problem { succ: Vec::new(), unwind: Vec::new(), reads: Vec::new(),
        kills: Vec::new(), handler };
    let mut b: usize = 0;
    while b < n
        invariant
            n == keys.len(),
            keys == blocks.keys(),
            *blocks == body.basic_blocks,
            blocks.consistent(),
            model == body.deep_view(),
            types == variable_types.deep_view(),
            closed_body(model),
            successors.deep_view() == successor_model(model),
            vars == universe.deep_view(),
            m == universe@.len(),
            b <= n,
            summaries@.len() == n,
            forall|k: int, v: VariableModel| 0 <= k < n ==> (
                #[trigger] summaries@[k].0.deep_view().contains(v) <==> exposed(
                    model.basic_blocks[keys[k]].instructions,
                    types,
                    v,
                )
            ),
            forall|k: int, name: Text| 0 <= k < n ==> (
                #[trigger] summaries@[k].1.deep_view().contains(name) <==> defined(
                    model.basic_blocks[keys[k]].instructions,
                    name,
                )
            ),
            p.handler@.len() == m,
            p.succ@.len() == b,
            p.unwind@.len() == b,
            p.reads@.len() == b,
            p.kills@.len() == b,
            forall|k: int| 0 <= k < b ==> (#[trigger] p.unwind@[k])@.len() == p.succ@[k]@.len(),
            forall|k: int| 0 <= k < b ==> (#[trigger] p.reads@[k])@.len() == m,
            forall|k: int| 0 <= k < b ==> (#[trigger] p.kills@[k])@.len() == m,
            forall|k: int, e: int| 0 <= k < b && 0 <= e < p.succ@[k]@.len() ==> (
                #[trigger] p.succ@[k]@[e]
            ) < n,
            forall|k: int| 0 <= k < b ==> #[trigger] block_stated(p, model, types, keys, vars, k),
            forall|v: int| 0 <= v < m ==> (
                #[trigger] p.handler@[v] <==> vars[v].0 == UNWIND_EXCEPTION_LOCAL@
            ),
        decreases n - b,
    {
        let ghost p0 = p;
        let ghost label = keys[b as int];
        let ghost instructions = model.basic_blocks[label].instructions;
        assert(model.basic_blocks.dom().contains(label));
        assert(model.basic_blocks[label] == blocks.values()[b as int].deep_view());
        let ghost out = successors_of(instructions);
        assert(successors.deep_view().dom().contains(label));
        assert(successors.map().dom().contains(label));
        let targets: &Vec<String> = successors.get(blocks.key_at(b).as_str()).unwrap();
        assert(targets.deep_view() == successors.deep_view()[label]);
        assert(targets.deep_view() == out);
        let unwinding = block_unwind_only_successors(blocks.value_at(b));
        let mut succ: Vec<usize> = Vec::new();
        let mut unwind: Vec<bool> = Vec::new();
        for e in 0..targets.len()
            invariant
                keys == blocks.keys(),
                *blocks == body.basic_blocks,
                blocks.consistent(),
                model == body.deep_view(),
                closed_body(model),
                model.basic_blocks.dom().contains(label),
                instructions == model.basic_blocks[label].instructions,
                out == successors_of(instructions),
                targets.deep_view() == out,
                forall|l: Text| #[trigger] unwinding.deep_view().contains(l)
                    <==> unwind_only(instructions, l),
                succ@.len() == e,
                unwind@.len() == e,
                forall|k: int| 0 <= k < e ==> (#[trigger] succ@[k]) < keys.len()
                    && keys[succ@[k] as int] == out[k],
                forall|k: int| 0 <= k < e ==> (
                    #[trigger] unwind@[k] <==> unwind_only(instructions, out[k])
                ),
        {
            assert(out[e as int] == targets@[e as int]@);
            assert(out.contains(out[e as int]));
            assert(model.basic_blocks.dom().contains(out[e as int]));
            succ.push(blocks.position(targets[e].as_str()).unwrap());
            unwind.push(names_hold(&unwinding, targets[e].as_str()));
        }
        let mut reads: Vec<bool> = Vec::new();
        let mut kills: Vec<bool> = Vec::new();
        for v in 0..m
            invariant
                b < n,
                n == keys.len(),
                vars == universe.deep_view(),
                m == universe@.len(),
                summaries@.len() == n,
                instructions == model.basic_blocks[keys[b as int]].instructions,
                forall|k: int, v: VariableModel| 0 <= k < n ==> (
                    #[trigger] summaries@[k].0.deep_view().contains(v) <==> exposed(
                        model.basic_blocks[keys[k]].instructions,
                        types,
                        v,
                    )
                ),
                forall|k: int, name: Text| 0 <= k < n ==> (
                    #[trigger] summaries@[k].1.deep_view().contains(name) <==> defined(
                        model.basic_blocks[keys[k]].instructions,
                        name,
                    )
                ),
                reads@.len() == v,
                kills@.len() == v,
                forall|k: int| 0 <= k < v ==> (
                    #[trigger] reads@[k] <==> exposed(instructions, types, vars[k])
                ),
                forall|k: int| 0 <= k < v ==> (
                    #[trigger] kills@[k] <==> defined(instructions, vars[k].0)
                ),
        {
            assert(vars[v as int] == universe@[v as int].deep_view());
            reads.push(variable_position(&summaries[b].0, &universe[v]).is_some());
            kills.push(names_hold(&summaries[b].1, universe[v].name.as_str()));
        }
        p.succ.push(succ);
        p.unwind.push(unwind);
        p.reads.push(reads);
        p.kills.push(kills);
        proof {
            assert(p.succ@ =~= p0.succ@.push(succ));
            assert(p.unwind@ =~= p0.unwind@.push(unwind));
            assert(p.reads@ =~= p0.reads@.push(reads));
            assert(p.kills@ =~= p0.kills@.push(kills));
            assert forall|k: int| 0 <= k < b + 1 implies #[trigger] block_stated(
                p,
                model,
                types,
                keys,
                vars,
                k,
            ) by {
                if k < b {
                    assert(block_stated(p0, model, types, keys, vars, k));
                    assert(p.succ@[k] == p0.succ@[k]);
                    assert(p.unwind@[k] == p0.unwind@[k]);
                    assert(p.reads@[k] == p0.reads@[k]);
                    assert(p.kills@[k] == p0.kills@[k]);
                } else {
                    assert(p.succ@[k] == succ);
                    assert(p.unwind@[k] == unwind);
                    assert(p.reads@[k] == reads);
                    assert(p.kills@[k] == kills);
                }
            }
            assert forall|k: int, e: int| 0 <= k < b + 1 && 0 <= e < p.succ@[k]@.len() implies (
                #[trigger] p.succ@[k]@[e]
            ) < n by {
                if k < b {
                    assert(p.succ@[k] == p0.succ@[k]);
                    assert(p0.succ@[k]@[e] < n);
                } else {
                    assert(p.succ@[k] == succ);
                }
            }
        }
        b = b + 1;
    }
    assert(represents(p, model, types, keys, vars));
    let bits = solve(&p);
    let mut live: LiveVariables = NameMap::new();
    proof {
        assert forall|l: Text, v: VariableModel| #[trigger] model.basic_blocks.dom().contains(l)
            && #[trigger] exposed(model.basic_blocks[l].instructions, types, v)
            implies vars.contains(v) by {
            assert(keys.contains(l));
            let k = choose|k: int| 0 <= k < keys.len() && keys[k] == l;
            assert(summaries@[k].0.deep_view().contains(v));
        }
        assert(keys.take(0) =~= Seq::<Text>::empty());
    }
    let mut b: usize = 0;
    while b < n
        invariant
            n == keys.len(),
            keys == blocks.keys(),
            *blocks == body.basic_blocks,
            blocks.consistent(),
            model == body.deep_view(),
            types == variable_types.deep_view(),
            closed_body(model),
            vars == universe.deep_view(),
            vars.no_duplicates(),
            variables_sorted(vars),
            m == universe@.len(),
            b <= n,
            represents(p, model, types, keys, vars),
            bits@.len() == n,
            forall|b: int| 0 <= b < n ==> (#[trigger] bits@[b])@.len() == m,
            forall|b: int, v: int| 0 <= b < n && 0 <= v < m ==> (
                #[trigger] bits@[b]@[v] <==> p.live(b, v)
            ),
            forall|l: Text, v: VariableModel| #[trigger] model.basic_blocks.dom().contains(l)
                && #[trigger] exposed(model.basic_blocks[l].instructions, types, v)
                ==> vars.contains(v),
            live.map().dom() =~= Set::new(|k: Text| keys.take(b as int).contains(k)),
            forall|l: Text| #[trigger] live.map().dom().contains(l) ==> is_live_list(
                model,
                types,
                l,
                live.map()[l].deep_view(),
            ),
        decreases n - b,
    {
        let ghost label = keys[b as int];
        assert(model.basic_blocks.dom().contains(label));
        let mut list: Vec<Variable> = Vec::new();
        let ghost mut source: Seq<int> = Seq::empty();
        for v in 0..m
            invariant
                b < n,
                vars == universe.deep_view(),
                m == universe@.len(),
                bits@.len() == n,
                bits@[b as int]@.len() == m,
                source.len() == list@.len(),
                forall|k: int| 0 <= k < source.len() ==> 0 <= #[trigger] source[k] < v
                    && bits@[b as int]@[source[k]] && list@[k].deep_view() == vars[source[k]],
                forall|j: int, k: int| 0 <= j < k < source.len() ==> source[j] < source[k],
                forall|w: int| 0 <= w < v && #[trigger] bits@[b as int]@[w] ==> source.contains(w),
        {
            let ghost source0 = source;
            if bits[b][v] {
                list.push(universe[v].dup());
                proof {
                    source = source.push(v as int);
                    assert(source[source0.len() as int] == v);
                }
            }
            assert forall|w: int| 0 <= w < v + 1 && #[trigger] bits@[b as int]@[w]
                implies source.contains(w) by {
                if w < v {
                    let k = choose|k: int| 0 <= k < source0.len() && source0[k] == w;
                    assert(source[k] == w);
                }
            }
        }
        proof {
            let lv = list.deep_view();
            assert forall|k: int| 0 <= k < lv.len() implies #[trigger] lv[k] == vars[source[k]]
                by {}
            assert forall|i: int, j: int| 0 <= i < lv.len() && 0 <= j < lv.len() && i != j
                implies lv[i] != lv[j] by {
                assert(source[i] != source[j]);
            }
            assert forall|i: int, j: int| 0 <= i < j < lv.len() implies !variable_less(
                #[trigger] lv[j],
                #[trigger] lv[i],
            ) by {
                assert(source[i] < source[j]);
                assert(!variable_less(vars[source[j]], vars[source[i]]));
            }
            assert forall|v: VariableModel| #[trigger] lv.contains(v) <==> live_on_entry(
                model,
                types,
                label,
                v,
            ) by {
                if lv.contains(v) {
                    let k = choose|k: int| 0 <= k < lv.len() && lv[k] == v;
                    let w = source[k];
                    assert(bits@[b as int]@[w]);
                    let fuel = choose|fuel: nat| #[trigger] p.live_within(fuel, b as int, w);
                    lemma_represents(p, model, types, keys, vars, fuel, b as int, w);
                    assert(live_within(model, types, fuel, label, v));
                }
                if live_on_entry(model, types, label, v) {
                    let fuel = choose|fuel: nat| #[trigger] live_within(
                        model,
                        types,
                        fuel,
                        label,
                        v,
                    );
                    lemma_live_is_exposed(model, types, fuel, label, v);
                    let l = choose|l: Text| #[trigger] model.basic_blocks.dom().contains(l)
                        && exposed(model.basic_blocks[l].instructions, types, v);
                    assert(vars.contains(v));
                    let w = choose|w: int| 0 <= w < vars.len() && vars[w] == v;
                    lemma_represents(p, model, types, keys, vars, fuel, b as int, w);
                    assert(p.live(b as int, w));
                    assert(bits@[b as int]@[w]);
                    let k = choose|k: int| 0 <= k < source.len() && source[k] == w;
                    assert(lv[k] == v);
                }
            }
            assert(is_live_list(model, types, label, lv));
            let keys0 = keys.take(b as int);
            let keys1 = keys.take(b + 1);
            assert forall|k: Text| keys1.contains(k) <==> keys0.contains(k) || k == label by {
                if keys0.contains(k) {
                    let j = choose|j: int| 0 <= j < keys0.len() && keys0[j] == k;
                    assert(keys1[j] == k);
                }
                assert(keys1[b as int] == label);
                if keys1.contains(k) && k != label {
                    let j = choose|j: int| 0 <= j < keys1.len() && keys1[j] == k;
                    assert(keys0[j] == k);
                }
            }
        }
        live.insert(blocks.key_at(b).clone(), list);
        b = b + 1;
    }
    proof {
        assert(keys.take(n as int) =~= keys);
        assert(live.deep_view().dom() =~= model.basic_blocks.dom());
        assert forall|label: Text| #[trigger] live.deep_view().dom().contains(label)
            implies is_live_list(model, types, label, live.deep_view()[label]) by {
            assert(live.map().dom().contains(label));
        }
    }
    live
}

/// Whether a list holds exactly the variables that are live on entry to a block, sorted and once
/// each.
pub open spec fn is_live_list(
    body: CodeBlockModel,
    types: Map<Text, Seq<TypeModel>>,
    label: Text,
    list: Seq<VariableModel>,
) -> bool {
    &&& list.no_duplicates()
    &&& variables_sorted(list)
    &&& forall|v: VariableModel| #[trigger] list.contains(v) <==> live_on_entry(
        body,
        types,
        label,
        v,
    )
}

/// Liveness is what its equation says: a variable is live on entry to a block exactly when the
/// block reads it before defining its name, or does not define the name and the variable is live on
/// entry to a successor that needs it.
pub proof fn liveness_equation(
    body: CodeBlockModel,
    types: Map<Text, Seq<TypeModel>>,
    label: Text,
    v: VariableModel,
)
    ensures
        ({
            let instructions = body.basic_blocks[label].instructions;
            live_on_entry(body, types, label, v) <==> exposed(instructions, types, v) || (!defined(
                instructions,
                v.0,
            ) && exists|s: Text| #[trigger] carried(instructions, s, v)
                && live_on_entry(body, types, s, v))
        }),
{
    let instructions = body.basic_blocks[label].instructions;
    if live_on_entry(body, types, label, v) && !exposed(instructions, types, v) {
        let fuel = choose|fuel: nat| #[trigger] live_within(body, types, fuel, label, v);
        let s = choose|s: Text| #[trigger] carried(instructions, s, v) && live_within(
            body,
            types,
            (fuel - 1) as nat,
            s,
            v,
        );
        assert(carried(instructions, s, v) && live_on_entry(body, types, s, v));
    }
    if exposed(instructions, types, v) {
        assert(live_within(body, types, 0, label, v));
    }
    if !defined(instructions, v.0) && exists|s: Text| #[trigger] carried(instructions, s, v)
        && live_on_entry(body, types, s, v) {
        let s = choose|s: Text| #[trigger] carried(instructions, s, v)
            && live_on_entry(body, types, s, v);
        let fuel = choose|fuel: nat| #[trigger] live_within(body, types, fuel, s, v);
        assert((fuel + 1 - 1) as nat == fuel);
        assert(live_within(body, types, fuel + 1, label, v));
    }
}

/// The exception that a handler defines is not live in front of a block that only reaches it by
/// unwinding: if the block does not read it itself, and none of its normal successors needs it, it
/// is not live on entry.
pub proof fn handler_exception_is_not_live_before_its_handler(
    body: CodeBlockModel,
    types: Map<Text, Seq<TypeModel>>,
    label: Text,
    v: VariableModel,
)
    requires
        v.0 == UNWIND_EXCEPTION_LOCAL@,
        !exposed(body.basic_blocks[label].instructions, types, v),
        forall|s: Text| #[trigger] successors_of(
            body.basic_blocks[label].instructions,
        ).contains(s) ==> unwind_only(
            body.basic_blocks[label].instructions,
            s,
        ) || !live_on_entry(body, types, s, v),
    ensures
        !live_on_entry(body, types, label, v),
{
    liveness_equation(body, types, label, v);
}

} // verus!
