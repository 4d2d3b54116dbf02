//! What holds of plans: which task a tick is for, when it is accepted, and who holds what.

use vstd::prelude::*;

use crate::domain::{CheckpointCommandModel, SpecBindingModel, TaskDoneModel};
use crate::error::StoreErrorModel;
use crate::ids::{ChangeId, CheckpointId, RunId};
use crate::moment::Moment;
use crate::order::{
    arranged, law_arranged_lists_the_selected, lemma_listed_once, lemma_precedes_total,
    lemma_text_lt_irreflexive, lemma_text_lt_total, precedes, text_lt,
};
use crate::outside::{json_list_parsed, json_list_text};
use crate::plan::{
    any_declares, ascending, bind_run, bound_slug, called_in, changes_called, claimant,
    close_task_step, declared_tail, declares, is_run, is_task_of, is_task_row, latest_first,
    leading_token, loaded_run, missing_markers, namespace_keys, number_ends, number_keys,
    open_numbers, open_tasks_of, seen_keys, sessions_of, task_lease, task_number, tick_target,
    trespasses, with_binding, RunViewModel,
};
use crate::rows::{
    any_row, changed, first_index, first_row, is_first, lemma_first, lemma_first_is_first,
    lemma_no_first,
};
use crate::states::{ChangeStatus, TaskStatus};
use crate::store::{checkpoint_body, checkpoint_step, with_carried_binding, with_checkpoint};
use crate::tables::{ChangeRowModel, LedgerRowModel, StoreModel, TaskRowModel};
use crate::text::{
    lemma_drop_back_at, occurs_in, pieces, stands_at, trimmed, white, without_prefixes,
};
use crate::text_laws::{
    blank, flush, law_a_cut_parts_a_text, law_an_uncut_text_is_one_piece,
    law_whitespace_around_a_text_does_not_matter,
};

verus! {

// --- the change a tick is for ----------------------------------------------

/// A change somebody can still work on, in a workspace and under a slug.
pub open spec fn workable(c: ChangeRowModel, run: RunViewModel, slug: Seq<char>) -> bool {
    &&& c.workspace_id == run.workspace_id
    &&& c.slug == slug
    &&& c.status != ChangeStatus::Archived
    &&& c.status != ChangeStatus::Abandoned
}

/// A tick is for the change that the run is bound to by its slug: the only one of that slug in
/// the run's workspace that is neither archived nor abandoned. Where there is no such change,
/// or more than one, or the run is bound to none, there is nothing to tick.
pub proof fn law_a_tick_is_for_the_change_the_run_is_bound_to(
    s: StoreModel,
    run_id: RunId,
    run: RunViewModel,
    slug: Seq<char>,
)
    ensures
        (run.spec is None || run.spec->0.change_id is None) ==> tick_target(s, run_id, run) == Err::<
            ChangeId,
            StoreErrorModel,
        >(StoreErrorModel::RunNotBoundToChange { run: run_id }),
        run.spec is Some && run.spec->0.change_id == Some(slug) ==> {
            &&& forall|k: int|
                0 <= k < s.changes.len() && workable(#[trigger] s.changes[k], run, slug) && (forall|
                    j: int,
                |
                    0 <= j < s.changes.len() && workable(#[trigger] s.changes[j], run, slug) ==> j
                        == k) ==> tick_target(s, run_id, run) == Ok::<ChangeId, StoreErrorModel>(
                    s.changes[k].id,
                )
            &&& (forall|k: int|
                0 <= k < s.changes.len() ==> !workable(#[trigger] s.changes[k], run, slug)) ==> {
                tick_target(s, run_id, run) == Err::<ChangeId, StoreErrorModel>(
                    StoreErrorModel::ChangeSlugNotFound(slug),
                )
            }
            &&& forall|j: int, k: int|
                0 <= j < k < s.changes.len() && workable(#[trigger] s.changes[j], run, slug)
                    && workable(#[trigger] s.changes[k], run, slug) ==> (tick_target(
                    s,
                    run_id,
                    run,
                ) matches Err(error) && error is ChangeSlugAmbiguous
                    && error->ChangeSlugAmbiguous_slug == slug)
        },
{
    if run.spec is Some && run.spec->0.change_id == Some(slug) {
        let keys = namespace_keys(s.changes);
        let marks = called_in(s.changes, run.workspace_id, slug);
        let found = changes_called(s, run.workspace_id, slug);
        lemma_listed_once(keys, marks, ascending());
        assert forall|k: int| 0 <= k < s.changes.len() implies #[trigger] marks[k] == workable(
            s.changes[k],
            run,
            slug,
        ) by {}
        assert forall|k: int|
            0 <= k < s.changes.len() && workable(#[trigger] s.changes[k], run, slug) && (forall|
                j: int,
            |
                0 <= j < s.changes.len() && workable(#[trigger] s.changes[j], run, slug) ==> j
                    == k) implies tick_target(s, run_id, run) == Ok::<ChangeId, StoreErrorModel>(
            s.changes[k].id,
        ) by {
            assert(marks[k]);
            let a = choose|a: int| 0 <= a < found.len() && found[a] == k;
            if found.len() > 1 {
                let b = if a == 0 {
                    1int
                } else {
                    0int
                };
                assert(found.contains(found[b]));
                assert(marks[found[b]]);
                assert(workable(s.changes[found[b]], run, slug));
                assert(found[b] == k);
            }
        }
        if forall|k: int| 0 <= k < s.changes.len() ==> !workable(#[trigger] s.changes[k], run, slug) {
            if found.len() > 0 {
                assert(found.contains(found[0]));
                assert(marks[found[0]]);
                assert(workable(s.changes[found[0]], run, slug));
            }
        }
        assert forall|j: int, k: int|
            0 <= j < k < s.changes.len() && workable(#[trigger] s.changes[j], run, slug)
                && workable(#[trigger] s.changes[k], run, slug) implies (tick_target(
            s,
            run_id,
            run,
        ) matches Err(error) && error is ChangeSlugAmbiguous && error->ChangeSlugAmbiguous_slug
            == slug) by {
            assert(marks[j] && marks[k]);
            let a = choose|a: int| 0 <= a < found.len() && found[a] == j;
            let b = choose|b: int| 0 <= b < found.len() && found[b] == k;
            assert(a != b);
        }
    }
}

// --- when a tick is accepted -----------------------------------------------

/// Being the first task of a number in a change.
pub open spec fn is_the_task(
    tasks: Seq<TaskRowModel>,
    change: ChangeId,
    number: Seq<char>,
    i: int,
) -> bool {
    &&& 0 <= i < tasks.len()
    &&& tasks[i].change_id == change && tasks[i].number == number
    &&& forall|j: int|
        0 <= j < i ==> (#[trigger] tasks[j]).change_id != change || tasks[j].number != number
}

/// An edit of a file that another task holds, made for the task of a number in a change.
pub open spec fn intrudes(
    tasks: Seq<TaskRowModel>,
    edit: LedgerRowModel,
    change: ChangeId,
    number: Seq<char>,
) -> bool {
    edit.trespass_on is Some && exists|j: int|
        0 <= j < tasks.len() && edit.task_id == Some((#[trigger] tasks[j]).id)
            && tasks[j].change_id == change && tasks[j].number == number
}

proof fn lemma_the_task(tasks: Seq<TaskRowModel>, change: ChangeId, number: Seq<char>)
    ensures
        forall|i: int|
            #[trigger] is_the_task(tasks, change, number, i) ==> first_row(
                tasks,
                is_task_of(change, number),
            ) == Some(tasks[i]),
        first_row(tasks, is_task_of(change, number)) is Some ==> exists|i: int|
            is_the_task(tasks, change, number, i) && first_row(tasks, is_task_of(change, number))
                == Some(tasks[i]),
{
    let p = is_task_of(change, number);
    assert forall|i: int| #[trigger] is_the_task(tasks, change, number, i) implies first_row(
        tasks,
        p,
    ) == Some(tasks[i]) by {
        assert(is_first(tasks, p, i));
        lemma_first(tasks, p, i);
    }
    lemma_first_is_first(tasks, p);
    if let Some(i) = first_index(tasks, p) {
        assert forall|j: int| 0 <= j < i implies (#[trigger] tasks[j]).change_id != change
            || tasks[j].number != number by {
            assert(!p(tasks[j]));
        }
        assert(is_the_task(tasks, change, number, i));
    }
}

proof fn lemma_intrusions(s: StoreModel, change: ChangeId, number: Seq<char>)
    ensures
        forall|i: int|
            0 <= i < s.ledger.len() ==> trespasses(s.tasks, change, number)(
                #[trigger] s.ledger[i],
            ) == intrudes(s.tasks, s.ledger[i], change, number),
{
    assert forall|i: int| 0 <= i < s.ledger.len() implies trespasses(s.tasks, change, number)(
        #[trigger] s.ledger[i],
    ) == intrudes(s.tasks, s.ledger[i], change, number) by {
        let edit = s.ledger[i];
        if edit.trespass_on is Some && edit.task_id is Some {
            let p = is_task_row(edit.task_id->0, change, number);
            if any_row(s.tasks, p) {
                let j = choose|j: int| 0 <= j < s.tasks.len() && p(#[trigger] s.tasks[j]);
                assert(s.tasks[j].id == edit.task_id->0);
            }
            if intrudes(s.tasks, edit, change, number) {
                let j = choose|j: int|
                    0 <= j < s.tasks.len() && edit.task_id == Some((#[trigger] s.tasks[j]).id)
                        && s.tasks[j].change_id == change && s.tasks[j].number == number;
                assert(p(s.tasks[j]));
            }
        }
    }
}

/// A tick that is accepted ran the command that was planned for its task, but for whitespace
/// around either; nothing that was edited for the task was another's; and the answer is about
/// the number that was given.
pub proof fn law_an_accepted_tick_ran_what_was_planned(
    s: StoreModel,
    run_id: RunId,
    run: RunViewModel,
    done: TaskDoneModel,
    now: Seq<char>,
)
    requires
        close_task_step(s, run_id, run, done, now) is Ok,
    ensures
        ({
            let (answer, after) = close_task_step(s, run_id, run, done, now)->Ok_0;
            let change = after.ticks.last().change_id;
            &&& answer.number == done.number
            &&& exists|i: int|
                #[trigger] is_the_task(s.tasks, change, done.number, i) && trimmed(
                    s.tasks[i].verify_command,
                ) == trimmed(done.verify_command)
            &&& forall|k: int|
                0 <= k < s.ledger.len() ==> !intrudes(
                    s.tasks,
                    #[trigger] s.ledger[k],
                    change,
                    done.number,
                )
        }),
{
    let after = close_task_step(s, run_id, run, done, now)->Ok_0.1;
    let change = after.ticks.last().change_id;
    lemma_the_task(s.tasks, change, done.number);
    lemma_intrusions(s, change, done.number);
    lemma_first_is_first(s.ledger, trespasses(s.tasks, change, done.number));
}

/// With any other command than the one that was planned for its task, a tick is refused, and
/// the command that was expected is named.
pub proof fn law_another_command_is_refused(
    s: StoreModel,
    run_id: RunId,
    run: RunViewModel,
    done: TaskDoneModel,
    now: Seq<char>,
    change: ChangeId,
    i: int,
)
    requires
        tick_target(s, run_id, run) == Ok::<ChangeId, StoreErrorModel>(change),
        is_the_task(s.tasks, change, done.number, i),
        trimmed(s.tasks[i].verify_command) != trimmed(done.verify_command),
    ensures
        close_task_step(s, run_id, run, done, now) matches Err(error) && error
            == (StoreErrorModel::VerifyCommandMismatch {
            number: done.number,
            expected: s.tasks[i].verify_command,
        }),
{
    lemma_the_task(s.tasks, change, done.number);
}

/// Saving a checkpoint that ticks a task with another command than its planned one is
/// refused, and the store stays as it is: the task is not closed and no tick is recorded.
pub proof fn law_a_checkpoint_with_another_command_writes_nothing(
    s: StoreModel,
    command: CheckpointCommandModel,
    checkpoint: CheckpointId,
    now: Seq<char>,
    until: Seq<char>,
    done: TaskDoneModel,
)
    requires
        command.task_done == Some(done),
        forall|k: int|
            0 <= k < s.operations.len() ==> (#[trigger] s.operations[k]).id
                != command.operation_id,
        forall|k: int|
            0 <= k < s.tasks.len() && (#[trigger] s.tasks[k]).number == done.number ==> trimmed(
                s.tasks[k].verify_command,
            ) != trimmed(done.verify_command),
    ensures
        checkpoint_step(s, command, None, checkpoint, now, until).0 is Err,
        checkpoint_step(s, command, None, checkpoint, now, until).1 == s,
{
    lemma_no_first(s.operations, crate::operations::is_operation(command.operation_id));
    if let Ok((result, after)) = checkpoint_body(s, command, checkpoint, now, until) {
        let bound = with_carried_binding(
            with_checkpoint(s, command, checkpoint, now),
            command,
            now,
            until,
        );
        let run = if command.binding is Some {
            loaded_run(bound, command.run_id)
        } else {
            loaded_run(s, command.run_id)
        };
        law_an_accepted_tick_ran_what_was_planned(bound, command.run_id, run->Ok_0, done, now);
        let change = after.ticks.last().change_id;
        let i = choose|i: int|
            #[trigger] is_the_task(bound.tasks, change, done.number, i) && trimmed(
                bound.tasks[i].verify_command,
            ) == trimmed(done.verify_command);
        assert(bound.tasks[i].number == s.tasks[i].number);
        assert(bound.tasks[i].verify_command == s.tasks[i].verify_command);
    }
}

/// A tick for a task that the change does not have is refused, and the answer lists just the
/// numbers of the tasks that are open in it.
pub proof fn law_an_unknown_task_is_refused(
    s: StoreModel,
    run_id: RunId,
    run: RunViewModel,
    done: TaskDoneModel,
    now: Seq<char>,
    change: ChangeId,
    number: Seq<char>,
)
    requires
        tick_target(s, run_id, run) == Ok::<ChangeId, StoreErrorModel>(change),
        forall|i: int|
            0 <= i < s.tasks.len() ==> (#[trigger] s.tasks[i]).change_id != change
                || s.tasks[i].number != done.number,
    ensures
        close_task_step(s, run_id, run, done, now) matches Err(error) && error is TaskNotFound
            && error->TaskNotFound_number == done.number && run.spec is Some
            && run.spec->0.change_id == Some(error->TaskNotFound_slug) && (
        error->TaskNotFound_open.contains(number) <==> exists|i: int|
            0 <= i < s.tasks.len() && (#[trigger] s.tasks[i]).change_id == change
                && s.tasks[i].number == number && s.tasks[i].status != TaskStatus::Done
                && s.tasks[i].status != TaskStatus::Skipped),
{
    lemma_no_first(s.tasks, is_task_of(change, done.number));
    lemma_open_numbers(s.tasks, change, number);
}

proof fn lemma_open_numbers(tasks: Seq<TaskRowModel>, change: ChangeId, number: Seq<char>)
    ensures
        open_numbers(tasks, change).contains(number) <==> exists|i: int|
            0 <= i < tasks.len() && (#[trigger] tasks[i]).change_id == change && tasks[i].number
                == number && tasks[i].status != TaskStatus::Done && tasks[i].status
                != TaskStatus::Skipped,
{
    let keys = number_keys(tasks);
    let marks = open_tasks_of(tasks, change);
    let order = arranged(keys, marks, ascending());
    let numbers = open_numbers(tasks, change);
    lemma_listed_once(keys, marks, ascending());
    if numbers.contains(number) {
        let k = choose|k: int| 0 <= k < numbers.len() && numbers[k] == number;
        assert(order.contains(order[k]));
        assert(marks[order[k]]);
        assert(tasks[order[k]].number == number);
    }
    if exists|i: int|
        0 <= i < tasks.len() && (#[trigger] tasks[i]).change_id == change && tasks[i].number
            == number && tasks[i].status != TaskStatus::Done && tasks[i].status
            != TaskStatus::Skipped {
        let i = choose|i: int|
            0 <= i < tasks.len() && (#[trigger] tasks[i]).change_id == change && tasks[i].number
                == number && tasks[i].status != TaskStatus::Done && tasks[i].status
                != TaskStatus::Skipped;
        assert(marks[i]);
        let k = choose|k: int| 0 <= k < order.len() && order[k] == i;
        assert(numbers[k] == number);
    }
}

/// A tick is refused over a file that another task holds: the answer names the number, the
/// file that was edited and the task that holds it.
pub proof fn law_a_tick_over_another_tasks_file_is_refused(
    s: StoreModel,
    run_id: RunId,
    run: RunViewModel,
    done: TaskDoneModel,
    now: Seq<char>,
    change: ChangeId,
    i: int,
    k: int,
)
    requires
        tick_target(s, run_id, run) == Ok::<ChangeId, StoreErrorModel>(change),
        is_the_task(s.tasks, change, done.number, i),
        trimmed(s.tasks[i].verify_command) == trimmed(done.verify_command),
        0 <= k < s.ledger.len(),
        intrudes(s.tasks, s.ledger[k], change, done.number),
        forall|j: int|
            0 <= j < k ==> !intrudes(s.tasks, #[trigger] s.ledger[j], change, done.number),
    ensures
        close_task_step(s, run_id, run, done, now) matches Err(error) && error
            == (StoreErrorModel::FileHeldByAnotherTask {
            number: done.number,
            path: s.ledger[k].path,
            holder: s.ledger[k].trespass_on->0,
        }),
{
    lemma_the_task(s.tasks, change, done.number);
    lemma_intrusions(s, change, done.number);
    let p = trespasses(s.tasks, change, done.number);
    assert(is_first(s.ledger, p, k));
    lemma_first(s.ledger, p, k);
}

/// A tick that ran the planned command, for a task none of whose edits was in another's file,
/// is accepted, whatever the output: the lines that were expected and do not stand in it are
/// named in the answer and in the record, in their order, and no others.
pub proof fn law_missing_lines_are_named_and_do_not_refuse(
    s: StoreModel,
    run_id: RunId,
    run: RunViewModel,
    done: TaskDoneModel,
    now: Seq<char>,
    change: ChangeId,
    i: int,
    expected: Seq<Seq<char>>,
    line: Seq<char>,
)
    requires
        tick_target(s, run_id, run) == Ok::<ChangeId, StoreErrorModel>(change),
        is_the_task(s.tasks, change, done.number, i),
        trimmed(s.tasks[i].verify_command) == trimmed(done.verify_command),
        forall|j: int|
            0 <= j < s.ledger.len() ==> !intrudes(
                s.tasks,
                #[trigger] s.ledger[j],
                change,
                done.number,
            ),
        json_list_parsed(s.tasks[i].expected_output_json) == Ok::<Seq<Seq<char>>, Seq<char>>(
            expected,
        ),
    ensures
        close_task_step(s, run_id, run, done, now) matches Ok((answer, after)) && {
            &&& answer.expected_output_missing.contains(line) <==> expected.contains(line) && !(
            exists|at: int|
                0 <= at && at + trimmed(line).len() <= done.output.len()
                    && #[trigger] done.output.subrange(at, at + trimmed(line).len()) == trimmed(
                    line,
                ))
            &&& answer.expected_output_missing.len() <= expected.len()
            &&& after.ticks.last().missing_json == json_list_text(answer.expected_output_missing)
            &&& after.ticks.last().change_id == change
            &&& after.ticks.last().created_at == now
            &&& after.ticks.drop_last() == s.ticks
        },
{
    lemma_the_task(s.tasks, change, done.number);
    lemma_intrusions(s, change, done.number);
    lemma_no_first(s.ledger, trespasses(s.tasks, change, done.number));
    let p = crate::plan::absent_from(done.output);
    let missing = missing_markers(expected, done.output);
    lemma_occurs(trimmed(line), done.output);
    if expected.contains(line) && p(line) {
        let k = choose|k: int| 0 <= k < expected.len() && expected[k] == line;
        expected.lemma_filter_contains(p, k);
    }
    if missing.contains(line) {
        let k = choose|k: int| 0 <= k < missing.len() && missing[k] == line;
        expected.lemma_filter_pred(p, k);
        expected.lemma_filter_contains_rev(p, line);
    }
    expected.lemma_filter_len(p);
    let after = close_task_step(s, run_id, run, done, now)->Ok_0.1;
    assert(after.ticks.drop_last() =~= s.ticks);
}

proof fn lemma_occurs(part: Seq<char>, s: Seq<char>)
    ensures
        occurs_in(part, s) <==> exists|at: int|
            0 <= at && at + part.len() <= s.len() && #[trigger] s.subrange(at, at + part.len())
                == part,
{
    if occurs_in(part, s) {
        let at = choose|at: int| stands_at(s, part, at);
        assert(s.subrange(at, at + part.len()) == part);
    }
    if exists|at: int|
        0 <= at && at + part.len() <= s.len() && #[trigger] s.subrange(at, at + part.len())
            == part {
        let at = choose|at: int|
            0 <= at && at + part.len() <= s.len() && #[trigger] s.subrange(at, at + part.len())
                == part;
        assert(stands_at(s, part, at));
    }
}

// --- what a tick leaves ----------------------------------------------------

/// A tick touches its task, the journal and its change, and nothing else. The change becomes
/// ready just when every task of it is done or skipped by then, and the answer says so; every
/// other change stays as it is, and so does everything else about this one.
pub proof fn law_the_last_tick_readies_the_change(
    s: StoreModel,
    run_id: RunId,
    run: RunViewModel,
    done: TaskDoneModel,
    now: Seq<char>,
    k: int,
)
    requires
        close_task_step(s, run_id, run, done, now) is Ok,
        0 <= k < s.changes.len(),
    ensures
        ({
            let (answer, after) = close_task_step(s, run_id, run, done, now)->Ok_0;
            let change = after.ticks.last().change_id;
            let all_settled = forall|i: int|
                0 <= i < s.tasks.len() && (#[trigger] s.tasks[i]).change_id == change ==> {
                    ||| s.tasks[i].number == done.number
                    ||| s.tasks[i].status == TaskStatus::Done
                    ||| s.tasks[i].status == TaskStatus::Skipped
                };
            &&& answer.change_ready == all_settled
            &&& after.changes.len() == s.changes.len()
            &&& after.changes[k] == if all_settled && s.changes[k].id == change {
                ChangeRowModel { status: ChangeStatus::Ready, updated_at: now, ..s.changes[k] }
            } else {
                s.changes[k]
            }
            &&& after == (StoreModel {
                tasks: after.tasks,
                ticks: after.ticks,
                changes: after.changes,
                ..s
            })
        }),
{
    let (answer, after) = close_task_step(s, run_id, run, done, now)->Ok_0;
    let change = after.ticks.last().change_id;
    let keys = number_keys(after.tasks);
    let marks = open_tasks_of(after.tasks, change);
    let order = arranged(keys, marks, ascending());
    lemma_listed_once(keys, marks, ascending());
    if order.len() > 0 {
        assert(order.contains(order[0]));
        assert(marks[order[0]]);
        assert(s.tasks[order[0]].change_id == change);
    } else {
        assert forall|i: int| 0 <= i < s.tasks.len() && (#[trigger] s.tasks[i]).change_id
            == change implies {
            ||| s.tasks[i].number == done.number
            ||| s.tasks[i].status == TaskStatus::Done
            ||| s.tasks[i].status == TaskStatus::Skipped
        } by {
            if s.tasks[i].number != done.number && s.tasks[i].status != TaskStatus::Done
                && s.tasks[i].status != TaskStatus::Skipped {
                assert(after.tasks[i] == s.tasks[i]);
                assert(marks[i]);
                assert(order.contains(i));
            }
        }
    }
}

/// A tick closes every task of its number in its change and no other: closed is done, with the
/// output as its evidence, proved at that time and held by nobody; all else of it stays.
pub proof fn law_a_tick_closes_just_its_task(
    s: StoreModel,
    run_id: RunId,
    run: RunViewModel,
    done: TaskDoneModel,
    now: Seq<char>,
    i: int,
)
    requires
        close_task_step(s, run_id, run, done, now) is Ok,
        0 <= i < s.tasks.len(),
    ensures
        ({
            let after = close_task_step(s, run_id, run, done, now)->Ok_0.1;
            let change = after.ticks.last().change_id;
            &&& after.tasks.len() == s.tasks.len()
            &&& after.tasks[i] == if s.tasks[i].change_id == change && s.tasks[i].number
                == done.number {
                TaskRowModel {
                    id: s.tasks[i].id,
                    change_id: change,
                    number: done.number,
                    files_json: s.tasks[i].files_json,
                    verify_command: s.tasks[i].verify_command,
                    expected_output_json: s.tasks[i].expected_output_json,
                    status: TaskStatus::Done,
                    evidence: Some(done.output),
                    verified_at: Some(now),
                    claimed_by: None,
                    lease_until: None,
                    updated_at: now,
                }
            } else {
                s.tasks[i]
            }
        }),
{
}

// --- taking a task in hand -------------------------------------------------

/// A hold on a task lasts ten minutes.
pub proof fn law_a_hold_lasts_ten_minutes(now: Moment)
    requires
        now.regular(),
        now.reaches(task_lease()),
    ensures
        now.plus(task_lease()).total_nanos() == now.total_nanos() + 600_000_000_000,
{
}

/// A binding touches the run it is for and the open tasks it names, and nothing else.
pub proof fn law_a_binding_touches_its_run_alone(
    s: StoreModel,
    run: RunId,
    binding: SpecBindingModel,
    now: Seq<char>,
    until: Seq<char>,
    i: int,
)
    requires
        0 <= i < s.runs.len(),
    ensures
        ({
            let after = with_binding(s, run, binding, now, until);
            let before = s.runs[i];
            &&& after == (StoreModel { runs: after.runs, tasks: after.tasks, ..s })
            &&& after.runs.len() == s.runs.len()
            &&& after.runs[i].id == before.id
            &&& before.id != run ==> after.runs[i] == before
            &&& before.id == run ==> after.runs[i] == crate::tables::RunRecordModel {
                spec_change_id: after.runs[i].spec_change_id,
                current_task: after.runs[i].current_task,
                updated_at: now,
                ..before
            }
            &&& before.id == run && binding.change_id is Some ==> after.runs[i].spec_change_id
                == binding.change_id
            &&& before.id == run && binding.change_id is None ==> after.runs[i].spec_change_id
                == before.spec_change_id
            &&& before.id == run && binding.current_task is Some ==> after.runs[i].current_task
                == binding.current_task
            &&& before.id == run && binding.current_task is None ==> after.runs[i].current_task
                == before.current_task
            &&& binding.current_task is None ==> after.tasks == s.tasks
        }),
{
}

/// A task is taken in hand just where it has the number that was named, is pending or running,
/// and belongs to a change under the slug that the run is bound to by then. It is running from
/// then on, until the given time, and all else of it stays.
pub proof fn law_just_the_named_task_is_taken_in_hand(
    s: StoreModel,
    run: RunId,
    binding: SpecBindingModel,
    now: Seq<char>,
    until: Seq<char>,
    k: int,
    i: int,
    described: Seq<char>,
)
    requires
        0 <= i < s.tasks.len(),
        0 <= k < s.runs.len(),
        s.runs[k].id == run,
        forall|j: int| 0 <= j < k ==> (#[trigger] s.runs[j]).id != run,
        binding.current_task == Some(described),
    ensures
        ({
            let after = with_binding(s, run, binding, now, until);
            let slug = if binding.change_id is Some {
                binding.change_id
            } else {
                s.runs[k].spec_change_id
            };
            let t = s.tasks[i];
            let named = {
                &&& task_number(described) == Some(t.number)
                &&& t.status == TaskStatus::Pending || t.status == TaskStatus::Running
                &&& slug is Some && exists|c: int|
                    0 <= c < s.changes.len() && (#[trigger] s.changes[c]).id == t.change_id
                        && s.changes[c].slug == slug->0
            };
            &&& after.tasks.len() == s.tasks.len()
            &&& !named ==> after.tasks[i] == t
            &&& named ==> after.tasks[i] == TaskRowModel {
                status: TaskStatus::Running,
                claimed_by: after.tasks[i].claimed_by,
                lease_until: Some(until),
                updated_at: now,
                ..t
            }
            &&& named ==> after.tasks[i].claimed_by == claimant(s, run)
        }),
{
    let bound = StoreModel { runs: changed(s.runs, is_run(run), bind_run(binding, now)), ..s };
    let p = is_run(run);
    assert(is_first(bound.runs, p, k));
    lemma_first(bound.runs, p, k);
    let t = s.tasks[i];
    if let Some(slug) = bound_slug(bound, run) {
        let q = crate::plan::is_change_called(t.change_id, slug);
        if any_row(s.changes, q) {
            let c = choose|c: int| 0 <= c < s.changes.len() && q(#[trigger] s.changes[c]);
            assert(s.changes[c].id == t.change_id);
        }
        if exists|c: int|
            0 <= c < s.changes.len() && (#[trigger] s.changes[c]).id == t.change_id
                && s.changes[c].slug == slug {
            let c = choose|c: int|
                0 <= c < s.changes.len() && (#[trigger] s.changes[c]).id == t.change_id
                    && s.changes[c].slug == slug;
            assert(q(s.changes[c]));
        }
    }
}

/// Whoever takes a task in hand for a run is the session of the run that was heard from last;
/// nobody does just where the run has no session.
pub proof fn law_the_session_heard_from_last_holds_the_task(s: StoreModel, run: RunId, i: int)
    requires
        0 <= i < s.sessions.len(),
        s.sessions[i].run_id == run,
    ensures
        claimant(s, run) is Some,
        exists|k: int|
            0 <= k < s.sessions.len() && claimant(s, run) == Some((#[trigger] s.sessions[k]).id)
                && s.sessions[k].run_id == run && (s.sessions[i].last_seen_at matches Some(at) ==> (
            s.sessions[k].last_seen_at matches Some(seen) && !text_lt(seen, at))),
{
    let keys = seen_keys(s.sessions);
    let marks = sessions_of(s.sessions, run);
    let order = arranged(keys, marks, latest_first());
    law_arranged_lists_the_selected(keys, marks, latest_first());
    assert(marks[i]);
    let at = choose|at: int| 0 <= at < order.len() && order[at] == i;
    let k = order[0];
    assert(marks[k]);
    assert(s.sessions[k].run_id == run);
    if at > 0 {
        assert(precedes(keys, latest_first(), order[0], order[at]));
    }
    if let Some(seen) = s.sessions[i].last_seen_at {
        lemma_text_lt_irreflexive(seen);
        if let Some(other) = s.sessions[k].last_seen_at {
            lemma_text_lt_total(seen, other);
        }
    }
}

/// A run without a session has nobody to hold a task.
pub proof fn law_nobody_holds_a_task_for_a_run_without_sessions(s: StoreModel, run: RunId)
    requires
        forall|i: int| 0 <= i < s.sessions.len() ==> (#[trigger] s.sessions[i]).run_id != run,
    ensures
        claimant(s, run) is None,
{
    let keys = seen_keys(s.sessions);
    let marks = sessions_of(s.sessions, run);
    let order = arranged(keys, marks, latest_first());
    lemma_listed_once(keys, marks, latest_first());
    if order.len() > 0 {
        assert(order.contains(order[0]));
        assert(marks[order[0]]);
        assert(s.sessions[order[0]].run_id == run);
    }
}

// --- the number of a task --------------------------------------------------

/// A number of a task: digits and dots, not ending in a dot.
pub open spec fn numeral(number: Seq<char>) -> bool {
    &&& number.len() > 0
    &&& number.last() != '.'
    &&& forall|i: int|
        0 <= i < number.len() ==> '0' <= #[trigger] number[i] <= '9' || number[i] == '.'
}

/// The number a description starts with is the number of its task, whatever follows behind a
/// colon or a space, and whatever whitespace is in front.
pub proof fn law_a_description_starts_with_its_number(
    before: Seq<char>,
    number: Seq<char>,
    end: char,
    rest: Seq<char>,
)
    requires
        blank(before),
        numeral(number),
        end == ':' || end == ' ',
        flush(rest),
    ensures
        task_number(before + number) == Some(number),
        task_number(before + (number.push(end) + rest)) == Some(number),
        task_number(before + (number.push('.').push(end) + rest)) == Some(number),
{
    let none = Seq::<char>::empty();
    lemma_numeral_is_flush(number);
    law_whitespace_around_a_text_does_not_matter(before, number, none);
    assert(before + number + none =~= before + number);
    lemma_number_alone(number);
    let one = number.push(end) + rest;
    assert(one[0] == number[0] && one.last() == rest.last());
    law_whitespace_around_a_text_does_not_matter(before, one, none);
    assert(before + one + none =~= before + one);
    lemma_number_before(number, number, end, rest);
    let dotted = number.push('.');
    let two = dotted.push(end) + rest;
    assert(two[0] == number[0] && two.last() == rest.last());
    law_whitespace_around_a_text_does_not_matter(before, two, none);
    assert(before + two + none =~= before + two);
    lemma_number_before(number, dotted, end, rest);
}

proof fn lemma_numeral_is_flush(number: Seq<char>)
    requires
        numeral(number),
    ensures
        flush(number),
        forall|i: int|
            0 <= i < number.len() ==> !white(#[trigger] number[i]) && number[i] != ':',
{
    assert forall|i: int| 0 <= i < number.len() implies !white(#[trigger] number[i]) && number[i]
        != ':' by {
        assert('0' <= number[i] <= '9' || number[i] == '.');
    }
}

proof fn lemma_number_alone(number: Seq<char>)
    requires
        numeral(number),
    ensures
        trimmed(number) == number ==> leading_token(number) == number,
        forall|s: Seq<char>| #[trigger]
            trimmed(s) == number ==> task_number(s) == Some(number),
{
    let marks = number_ends(number);
    lemma_numeral_is_flush(number);
    law_an_uncut_text_is_one_piece(number, marks);
    lemma_drop_back_at(number, crate::text::being('.'), number.len() as int);
    assert(number.take(number.len() as int) =~= number);
}

proof fn lemma_number_before(
    number: Seq<char>,
    head: Seq<char>,
    end: char,
    rest: Seq<char>,
)
    requires
        numeral(number),
        head == number || head == number.push('.'),
        end == ':' || end == ' ',
    ensures
        forall|s: Seq<char>| #[trigger]
            trimmed(s) == head.push(end) + rest ==> task_number(s) == Some(number),
{
    let whole = head.push(end) + rest;
    let marks = number_ends(whole);
    let n = head.len() as int;
    lemma_numeral_is_flush(number);
    assert(whole[n] == end);
    law_a_cut_parts_a_text(head, end, rest, marks);
    assert forall|i: int| 0 <= i < n implies !#[trigger] marks.take(n)[i] by {
        assert(whole[i] == head[i]);
        if i < number.len() {
            assert(head[i] == number[i]);
        }
    }
    law_an_uncut_text_is_one_piece(head, marks.take(n));
    assert(pieces(whole, marks)[0] == head);
    let k = number.len() as int;
    assert(number[k - 1] != '.');
    assert forall|j: int| k <= j < n implies crate::text::being('.')(#[trigger] head[j]) by {}
    lemma_drop_back_at(head, crate::text::being('.'), k);
    assert(head.take(k) =~= number);
}

/// A description that starts with a letter names no number.
pub proof fn law_a_description_without_a_number_names_no_task(described: Seq<char>)
    requires
        trimmed(described).len() > 0,
        ({
            let first = trimmed(described)[0];
            first != '.' && !('0' <= first <= '9')
        }),
    ensures
        task_number(described) is None,
{
    let line = trimmed(described);
    let marks = number_ends(line);
    lemma_first_piece(line, marks);
    let piece = pieces(line, marks)[0];
    let head = leading_token(described);
    crate::text::lemma_drop_back_is_front(piece, crate::text::being('.'));
    if head.len() > 0 {
        assert(head[0] == piece[0]);
        assert(piece[0] == line[0]);
    }
}

proof fn lemma_first_piece(s: Seq<char>, marks: Seq<bool>)
    ensures
        pieces(s, marks).len() > 0,
        pieces(s, marks)[0].len() <= s.len(),
        forall|i: int|
            0 <= i < pieces(s, marks)[0].len() ==> #[trigger] pieces(s, marks)[0][i] == s[i],
        pieces(s, marks).len() == 1 ==> pieces(s, marks)[0].len() == s.len(),
    decreases s.len(),
{
    if s.len() > 0 {
        let front = s.drop_last();
        lemma_first_piece(front, marks);
        let before = pieces(front, marks);
        assert forall|i: int| 0 <= i < before[0].len() implies #[trigger] before[0][i] == s[i] by {
            assert(before[0][i] == front[i]);
        }
        if before.len() == 1 && !marks[s.len() - 1] {
            let grown = before.last().push(s.last());
            assert(pieces(s, marks)[0] == grown);
            assert forall|i: int| 0 <= i < grown.len() implies #[trigger] grown[i] == s[i] by {
                if i < before[0].len() {
                    assert(before[0][i] == front[i]);
                }
            }
        }
    }
}

// --- what a task declares --------------------------------------------------

/// A path as it is declared: with nothing around it and no step to where one is in front.
pub open spec fn settled_path(path: Seq<char>) -> bool {
    flush(path) && !"./"@.is_prefix_of(path)
}

/// A task that declares a path declares that path, from whichever directory it is written, and
/// nothing else. A step to where one is in front of the declaration makes no difference.
pub proof fn law_a_task_declares_a_path_from_any_directory(
    path: Seq<char>,
    edited: Seq<char>,
)
    requires
        settled_path(path),
    ensures
        declares(path, edited) <==> (edited == path || exists|front: Seq<char>|
            edited == #[trigger] (front + "/"@) + path),
        declares("./"@ + path, edited) == declares(path, edited),
{
    let none = Seq::<char>::empty();
    reveal_strlit("./");
    reveal_strlit("/");
    law_whitespace_around_a_text_does_not_matter(none, path, none);
    assert(declared_tail(path) == path);
    let stepped = "./"@ + path;
    assert(flush(stepped));
    law_whitespace_around_a_text_does_not_matter(none, stepped, none);
    assert("./"@.is_prefix_of(stepped)) by {
        assert(stepped.subrange(0, 2) =~= "./"@);
    }
    assert(stepped.skip(2) =~= path);
    assert(without_prefixes(stepped, "./"@) == without_prefixes(path, "./"@));
    assert(declared_tail(stepped) == path);
    let whole = "/"@ + path;
    if whole.is_suffix_of(edited) {
        let front = edited.take(edited.len() - whole.len());
        assert((front + "/"@) + path =~= edited) by {
            assert(edited.subrange(edited.len() - whole.len(), edited.len() as int) == whole);
            assert(edited =~= front + whole);
        }
    }
    if exists|front: Seq<char>| edited == #[trigger] (front + "/"@) + path {
        let front = choose|front: Seq<char>| edited == #[trigger] (front + "/"@) + path;
        assert(edited.subrange(edited.len() - whole.len(), edited.len() as int) =~= whole);
    }
}

/// A task with nothing declared declares nothing.
pub proof fn law_nothing_is_declared_by_an_empty_list(edited: Seq<char>)
    ensures
        !any_declares(Seq::empty(), edited),
        !declares(Seq::empty(), edited),
{
    reveal_strlit("./");
    crate::text_laws::law_a_blank_text_is_empty(Seq::<char>::empty());
    assert(trimmed(Seq::<char>::empty()) =~= Seq::<char>::empty());
}

/// Whitespace around a declared path makes no difference.
pub proof fn law_whitespace_around_a_declaration_does_not_matter(
    before: Seq<char>,
    path: Seq<char>,
    after: Seq<char>,
    edited: Seq<char>,
)
    requires
        blank(before),
        blank(after),
        flush(path),
    ensures
        declares(before + path + after, edited) == declares(path, edited),
{
    law_whitespace_around_a_text_does_not_matter(before, path, after);
}

/// A slug that names more than one change is refused with where those changes are filed, each
/// once, those without a namespace first and the others in order.
pub proof fn law_an_ambiguous_slug_tells_the_namespaces(
    s: StoreModel,
    run_id: RunId,
    run: RunViewModel,
    slug: Seq<char>,
    k: int,
    a: int,
    b: int,
)
    requires
        run.spec is Some && run.spec->0.change_id == Some(slug),
        tick_target(s, run_id, run) matches Err(error) && error is ChangeSlugAmbiguous,
    ensures
        ({
            let told = tick_target(s, run_id, run)->Err_0->ChangeSlugAmbiguous_namespaces;
            &&& 0 <= k < s.changes.len() && workable(s.changes[k], run, slug)
                ==> told.contains(
                if s.changes[k].namespace is Some {
                    s.changes[k].namespace->0
                } else {
                    "(no namespace)"@
                },
            )
            &&& 0 <= a < b < told.len() ==> exists|i: int, j: int|
                {
                    &&& 0 <= i < s.changes.len() && 0 <= j < s.changes.len() && i != j
                    &&& #[trigger] workable(s.changes[i], run, slug)
                    &&& #[trigger] workable(s.changes[j], run, slug)
                    &&& s.changes[i].namespace is Some && s.changes[j].namespace is Some ==> told[a]
                        == s.changes[i].namespace->0 && told[b] == s.changes[j].namespace->0
                        && !text_lt(told[b], told[a])
                    &&& s.changes[i].namespace matches Some(name) ==> name.len() > 0
                        ==> s.changes[j].namespace is Some
                    &&& s.changes[i].namespace is None ==> told[a] == "(no namespace)"@
                }
        }),
{
    let keys = namespace_keys(s.changes);
    let marks = called_in(s.changes, run.workspace_id, slug);
    let found = changes_called(s, run.workspace_id, slug);
    let told = tick_target(s, run_id, run)->Err_0->ChangeSlugAmbiguous_namespaces;
    lemma_listed_once(keys, marks, ascending());
    law_arranged_lists_the_selected(keys, marks, ascending());
    if 0 <= k < s.changes.len() && workable(s.changes[k], run, slug) {
        assert(marks[k]);
        let n = choose|n: int| 0 <= n < found.len() && found[n] == k;
        assert(told[n] == if s.changes[k].namespace is Some {
            s.changes[k].namespace->0
        } else {
            "(no namespace)"@
        });
    }
    if 0 <= a < b < told.len() {
        let (i, j) = (found[a], found[b]);
        assert(marks[i] && marks[j]);
        assert(precedes(keys, ascending(), i, j));
        lemma_precedes_total(keys, ascending(), i, j);
        assert(workable(s.changes[i], run, slug) && workable(s.changes[j], run, slug));
        if s.changes[i].namespace is Some {
            let (x, y) = (keys[i].text, keys[j].text);
            lemma_text_lt_total(x, y);
            lemma_text_lt_irreflexive(x);
        }
    }
}

} // verus!
