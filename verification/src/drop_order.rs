//! The order in which the parts of a value are dropped, and what happens when dropping one fails.
use crate::code::{ends_unwind, rethrows, starts_unwind};
use crate::drop_glue::{
    abort_block, cleanup_blocks, cleanup_end, cleanup_target, drop_blocks, drop_end, guarded,
    safe_drop_body,
};
use crate::execution::{decimal_is_digits, decimals_differ};
use crate::oomir::{BasicBlockModel, InstructionModel, Text};
use crate::text::decimal_text;
use vstd::prelude::*;
use vstd::string::*;

verus! {

/// How a drop body ends.
pub enum DropEnd {
    /// The method returns.
    Returned,
    /// The failure of an action goes on to the caller.
    Failed,
    /// The program ends.
    Aborted,
    /// There is no block to go on with.
    Stuck,
}

/// What a drop body does: the actions in the order in which they are started, and how it ends.
pub struct DropRun {
    pub actions: Seq<Seq<InstructionModel>>,
    pub end: DropEnd,
}

/// A run with one action in front.
pub open spec fn with_action(action: Seq<InstructionModel>, run: DropRun) -> DropRun {
    DropRun { actions: seq![action] + run.actions, end: run.end }
}

/// A run without actions.
pub open spec fn at_end(end: DropEnd) -> DropRun {
    DropRun { actions: Seq::empty(), end }
}

/// What the blocks from a label on do. The outcomes say of each action that is started whether it
/// fails.
pub open spec fn drop_run(
    blocks: Map<Text, BasicBlockModel>,
    label: Text,
    outcomes: Seq<bool>,
) -> DropRun
    decreases outcomes.len(),
{
    if !blocks.contains_key(label) {
        at_end(DropEnd::Stuck)
    } else {
        let list = blocks[label].instructions;
        if list == seq![rethrows()] {
            at_end(DropEnd::Failed)
        } else if list == abort_block() {
            at_end(DropEnd::Aborted)
        } else if list.len() >= 3 && list[0] is UnwindStart && list[list.len() - 2] is UnwindEnd
            && outcomes.len() > 0 {
            let action = list.subrange(1, list.len() - 2);
            let rest = outcomes.skip(1);
            if outcomes[0] {
                with_action(action, drop_run(blocks, list[0]->UnwindStart_target, rest))
            } else {
                match list.last() {
                    InstructionModel::Jump { target } => with_action(
                        action,
                        drop_run(blocks, target, rest),
                    ),
                    InstructionModel::Return { .. } => with_action(
                        action,
                        at_end(DropEnd::Returned),
                    ),
                    InstructionModel::Rethrow => with_action(action, at_end(DropEnd::Failed)),
                    _ => with_action(action, at_end(DropEnd::Stuck)),
                }
            }
        } else {
            at_end(DropEnd::Stuck)
        }
    }
}

/// The label of a block that does an action.
pub open spec fn drop_label(index: nat) -> Text {
    "drop_"@ + decimal_text(index)
}

/// The label of a block that does an action behind a failure.
pub open spec fn cleanup_label(index: nat) -> Text {
    "cleanup_"@ + decimal_text(index)
}

proof fn labels_start(index: nat)
    ensures
        drop_label(index).len() > 5,
        drop_label(index)[0] == 'd',
        cleanup_label(index).len() > 8,
        cleanup_label(index)[0] == 'c',
        "rethrow"@[0] == 'r',
        "rethrow"@.len() == 7,
        "abort"@[0] == 'a',
        "abort"@.len() == 5,
{
    reveal_strlit("drop_");
    reveal_strlit("cleanup_");
    reveal_strlit("rethrow");
    reveal_strlit("abort");
    decimal_is_digits(index);
}

proof fn labels_differ(i: nat, j: nat)
    ensures
        drop_label(i) == drop_label(j) ==> i == j,
        cleanup_label(i) == cleanup_label(j) ==> i == j,
        drop_label(i) != cleanup_label(j),
        drop_label(i) != "rethrow"@,
        drop_label(i) != "abort"@,
        cleanup_label(i) != "rethrow"@,
        cleanup_label(i) != "abort"@,
        "rethrow"@ != "abort"@,
{
    reveal_strlit("drop_");
    reveal_strlit("cleanup_");
    labels_start(i);
    labels_start(j);
    if drop_label(i) == drop_label(j) {
        assert(drop_label(i).skip(5) =~= decimal_text(i));
        assert(drop_label(j).skip(5) =~= decimal_text(j));
        decimals_differ(i, j);
    }
    if cleanup_label(i) == cleanup_label(j) {
        assert(cleanup_label(i).skip(8) =~= decimal_text(i));
        assert(cleanup_label(j).skip(8) =~= decimal_text(j));
        decimals_differ(i, j);
    }
}

proof fn drop_block_is_there(actions: Seq<Seq<InstructionModel>>, n: nat, index: nat)
    requires
        index < n <= actions.len(),
    ensures
        drop_blocks(actions, n).contains_key(drop_label(index)),
        drop_blocks(actions, n)[drop_label(index)].instructions == guarded(
            actions[index as int],
            cleanup_target(index, actions.len()),
            drop_end(index, actions.len()),
        ),
    decreases n,
{
    if index + 1 < n {
        drop_block_is_there(actions, (n - 1) as nat, index);
        labels_differ(index, (n - 1) as nat);
    }
}

proof fn drop_block_stays(actions: Seq<Seq<InstructionModel>>, n: nat, index: nat)
    requires
        index < actions.len(),
        n <= actions.len(),
    ensures
        cleanup_blocks(actions, n).contains_key(drop_label(index)),
        cleanup_blocks(actions, n)[drop_label(index)].instructions == guarded(
            actions[index as int],
            cleanup_target(index, actions.len()),
            drop_end(index, actions.len()),
        ),
    decreases n,
{
    if n <= 1 {
        drop_block_is_there(actions, actions.len(), index);
    } else {
        drop_block_stays(actions, (n - 1) as nat, index);
        labels_differ(index, (n - 1) as nat);
    }
}

proof fn cleanup_block_is_there(actions: Seq<Seq<InstructionModel>>, n: nat, index: nat)
    requires
        1 <= index < n <= actions.len(),
    ensures
        cleanup_blocks(actions, n).contains_key(cleanup_label(index)),
        cleanup_blocks(actions, n)[cleanup_label(index)].instructions == guarded(
            actions[index as int],
            "abort"@,
            cleanup_end(index, actions.len()),
        ),
    decreases n,
{
    if index + 1 < n {
        cleanup_block_is_there(actions, (n - 1) as nat, index);
        labels_differ(index, (n - 1) as nat);
    }
}

/// The blocks of a drop body.
pub open spec fn body_blocks(actions: Seq<Seq<InstructionModel>>) -> Map<Text, BasicBlockModel> {
    safe_drop_body(actions).basic_blocks
}

/// Every action has a block, which leads to the next action or to the end, and on failure to the
/// clean-up of the actions behind it.
pub proof fn every_action_has_its_block(actions: Seq<Seq<InstructionModel>>, index: nat)
    requires
        index < actions.len(),
    ensures
        body_blocks(actions).contains_key(drop_label(index)),
        body_blocks(actions)[drop_label(index)].instructions == guarded(
            actions[index as int],
            cleanup_target(index, actions.len()),
            drop_end(index, actions.len()),
        ),
        index > 0 ==> body_blocks(actions).contains_key(cleanup_label(index)),
        index > 0 ==> body_blocks(actions)[cleanup_label(index)].instructions == guarded(
            actions[index as int],
            "abort"@,
            cleanup_end(index, actions.len()),
        ),
        body_blocks(actions).contains_key("rethrow"@),
        body_blocks(actions)["rethrow"@].instructions == seq![rethrows()],
        body_blocks(actions).contains_key("abort"@),
        body_blocks(actions)["abort"@].instructions == abort_block(),
{
    labels_differ(index, index);
    drop_block_stays(actions, actions.len(), index);
    if index > 0 {
        cleanup_block_is_there(actions, actions.len(), index);
    }
}

/// A step of dropping is read back as it was written.
proof fn step_is_read_back(
    blocks: Map<Text, BasicBlockModel>,
    label: Text,
    action: Seq<InstructionModel>,
    failure: Text,
    last: InstructionModel,
    outcomes: Seq<bool>,
)
    requires
        blocks.contains_key(label),
        blocks[label].instructions == guarded(action, failure, last),
        outcomes.len() > 0,
    ensures
        drop_run(blocks, label, outcomes) == (if outcomes[0] {
            with_action(action, drop_run(blocks, failure, outcomes.skip(1)))
        } else {
            match last {
                InstructionModel::Jump { target } => with_action(
                    action,
                    drop_run(blocks, target, outcomes.skip(1)),
                ),
                InstructionModel::Return { .. } => with_action(action, at_end(DropEnd::Returned)),
                InstructionModel::Rethrow => with_action(action, at_end(DropEnd::Failed)),
                _ => with_action(action, at_end(DropEnd::Stuck)),
            }
        }),
{
    let list = guarded(action, failure, last);
    assert(list[0] == starts_unwind(failure));
    assert(list[list.len() - 2] == ends_unwind());
    assert(list.last() == last);
    assert(list.subrange(1, list.len() - 2) =~= action);
    assert(list != seq![rethrows()]) by {
        assert(seq![rethrows()].len() == 1);
    }
    assert(list != abort_block()) by {
        assert(abort_block()[0] is InvokeStatic);
    }
}

/// How many of the outcomes are failures.
pub open spec fn failures(outcomes: Seq<bool>) -> nat
    decreases outcomes.len(),
{
    if outcomes.len() == 0 {
        0
    } else {
        (if outcomes[0] {
            1nat
        } else {
            0
        }) + failures(outcomes.skip(1))
    }
}

/// Where the first failure stands; the length if there is none.
pub open spec fn first_failure(outcomes: Seq<bool>) -> nat
    decreases outcomes.len(),
{
    if outcomes.len() == 0 || outcomes[0] {
        0
    } else {
        1 + first_failure(outcomes.skip(1))
    }
}

proof fn first_failure_is_inside(outcomes: Seq<bool>)
    ensures
        first_failure(outcomes) <= outcomes.len(),
        failures(outcomes) > 0 <==> first_failure(outcomes) < outcomes.len(),
    decreases outcomes.len(),
{
    if outcomes.len() > 0 && !outcomes[0] {
        first_failure_is_inside(outcomes.skip(1));
    }
}

/// Behind a failure the actions are done one after the other up to the next failure, which ends the
/// program; without one the first failure goes on.
pub proof fn cleanup_goes_on(actions: Seq<Seq<InstructionModel>>, index: nat, outcomes: Seq<bool>)
    requires
        1 <= index <= actions.len(),
        outcomes.len() == actions.len() - index,
    ensures
        drop_run(
            body_blocks(actions),
            if index < actions.len() {
                cleanup_label(index)
            } else {
                "rethrow"@
            },
            outcomes,
        ) == (if failures(outcomes) == 0 {
            DropRun { actions: actions.skip(index as int), end: DropEnd::Failed }
        } else {
            DropRun {
                actions: actions.subrange(
                    index as int,
                    (index + first_failure(outcomes) + 1) as int,
                ),
                end: DropEnd::Aborted,
            }
        }),
    decreases outcomes.len(),
{
    let blocks = body_blocks(actions);
    let count = actions.len();
    every_action_has_its_block(actions, (count - 1) as nat);
    first_failure_is_inside(outcomes);
    if index == count {
        assert(actions.skip(index as int) =~= Seq::empty());
    } else {
        every_action_has_its_block(actions, index);
        let rest = outcomes.skip(1);
        step_is_read_back(
            blocks,
            cleanup_label(index),
            actions[index as int],
            "abort"@,
            cleanup_end(index, count),
            outcomes,
        );
        if outcomes[0] {
            assert(drop_run(blocks, "abort"@, rest) == at_end(DropEnd::Aborted)) by {
                assert(abort_block().len() == 2);
                assert(seq![rethrows()].len() == 1);
            }
            assert(seq![actions[index as int]] + Seq::<Seq<InstructionModel>>::empty()
                =~= actions.subrange(index as int, (index + 1) as int));
        } else {
            cleanup_goes_on(actions, index + 1, rest);
            first_failure_is_inside(rest);
            let action = actions[index as int];
            assert(actions.skip(index as int) =~= seq![action] + actions.skip((index + 1) as int));
            if index + 1 < count {
                if failures(rest) > 0 {
                    assert(actions.subrange(
                        index as int,
                        (index + 1 + first_failure(rest) + 1) as int,
                    )
                        =~= seq![action] + actions.subrange(
                        (index + 1) as int,
                        (index + 1 + first_failure(rest) + 1) as int,
                    ));
                }
            } else {
                assert(actions.skip((index + 1) as int) =~= Seq::empty());
                assert(rest.len() == 0);
            }
        }
    }
}

/// Where the second failure stands, if there is one.
pub open spec fn second_failure(outcomes: Seq<bool>) -> nat {
    let first = first_failure(outcomes);
    first + 1 + first_failure(outcomes.skip((first + 1) as int))
}

/// What a drop body with these outcomes is to do from an action on.
pub open spec fn expected_run(
    actions: Seq<Seq<InstructionModel>>,
    index: nat,
    outcomes: Seq<bool>,
) -> DropRun {
    if failures(outcomes) == 0 {
        DropRun { actions: actions.skip(index as int), end: DropEnd::Returned }
    } else if failures(outcomes) == 1 {
        DropRun { actions: actions.skip(index as int), end: DropEnd::Failed }
    } else {
        DropRun {
            actions: actions.subrange(index as int, (index + second_failure(outcomes) + 1) as int),
            end: DropEnd::Aborted,
        }
    }
}

proof fn drop_goes_on(actions: Seq<Seq<InstructionModel>>, index: nat, outcomes: Seq<bool>)
    requires
        index < actions.len(),
        outcomes.len() == actions.len() - index,
    ensures
        drop_run(body_blocks(actions), drop_label(index), outcomes) == expected_run(
            actions,
            index,
            outcomes,
        ),
    decreases outcomes.len(),
{
    let blocks = body_blocks(actions);
    let count = actions.len();
    let action = actions[index as int];
    let rest = outcomes.skip(1);
    every_action_has_its_block(actions, index);
    first_failure_is_inside(outcomes);
    first_failure_is_inside(rest);
    assert(actions.skip(index as int) =~= seq![action] + actions.skip((index + 1) as int));
    step_is_read_back(
        blocks,
        drop_label(index),
        action,
        cleanup_target(index, count),
        drop_end(index, count),
        outcomes,
    );
    if outcomes[0] {
        cleanup_goes_on(actions, index + 1, rest);
        if failures(rest) > 0 {
            assert(actions.subrange(index as int, (index + 1 + first_failure(rest) + 1) as int)
                =~= seq![action] + actions.subrange(
                    (index + 1) as int,
                    (index + 1 + first_failure(rest) + 1) as int,
                ));
        }
    } else if index + 1 < count {
        drop_goes_on(actions, index + 1, rest);
        if failures(rest) > 1 {
            let first = first_failure(rest);
            assert(outcomes.skip((first + 2) as int) =~= rest.skip((first + 1) as int));
            second_failure_is_inside(rest);
            assert(actions.subrange(index as int, (index + 1 + second_failure(rest) + 1) as int)
                =~= seq![action] + actions.subrange(
                    (index + 1) as int,
                    (index + 1 + second_failure(rest) + 1) as int,
                ));
        }
    } else {
        assert(rest.len() == 0);
        assert(actions.skip((index + 1) as int) =~= Seq::empty());
    }
}

proof fn second_failure_is_inside(outcomes: Seq<bool>)
    requires
        failures(outcomes) > 1,
    ensures
        second_failure(outcomes) < outcomes.len(),
    decreases outcomes.len(),
{
    let rest = outcomes.skip(1);
    first_failure_is_inside(outcomes);
    if outcomes[0] {
        first_failure_is_inside(rest);
    } else {
        second_failure_is_inside(rest);
        assert(
            outcomes.skip(
                (first_failure(rest) + 2) as int,
            ) =~= rest.skip((first_failure(rest) + 1) as int)
        );
    }
}

/// A drop body does its actions one after the other. If none fails, it returns. If one fails, the
/// ones behind it are still done, and the failure goes on. If a second one fails, the program ends
/// there.
pub proof fn actions_are_done_in_order(actions: Seq<Seq<InstructionModel>>, outcomes: Seq<bool>)
    requires
        actions.len() > 0,
        outcomes.len() == actions.len(),
    ensures
        drop_run(
            safe_drop_body(actions).basic_blocks,
            safe_drop_body(actions).entry,
            outcomes,
        ) == expected_run(actions, 0, outcomes),
{
    reveal_strlit("drop_");
    reveal_strlit("drop_0");
    assert(decimal_text(0) =~= seq!['0']);
    assert(drop_label(0) =~= "drop_0"@);
    drop_goes_on(actions, 0, outcomes);
}

} // verus!
