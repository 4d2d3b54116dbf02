//! What holds of runs, checkpoints and plans as a whole.

use vstd::prelude::*;

use crate::domain::{
    CheckpointCommandModel, CheckpointResultModel, CheckpointSnapshotModel, FinishRunCommandModel,
    FinishRunResultModel, RunSnapshotModel, SpecBindingModel, StartRunCommandModel,
    StartRunResultModel, TaskDoneModel,
};
use crate::error::StoreErrorModel;
use crate::git::RepositoryProbeModel;
use crate::ids::{CheckpointId, RunId, SessionId};
use crate::keys::{run_taken, session_taken};
use crate::moment::Moment;
use crate::operations::is_operation;
use crate::order::{arranged, law_arranged_lists_the_selected};
use crate::plan::{
    ascending, bind_run, bound_slug, claimable, claimant, close_task_step, declared_tail, declares,
    is_run, loaded_run, number_keys, open_status, open_tasks_of, task_number, tick_target,
    with_binding, RunViewModel,
};
use crate::repositories::{place_refusal, upsert_step};
use crate::rows::{
    changed, first_index, first_row, is_first, last_row, lemma_first, lemma_first_is_first,
    lemma_first_pushed, lemma_last_pushed, lemma_no_first, lemma_no_last,
};
use crate::states::{
    ChangeStatus, FinishAction, HarnessKind, RunStatus, TaskStatus, WorkflowStage,
};
use crate::store::{
    checkpoint_body, checkpoint_step, completed, finish_step, of_run, of_session, run_snapshot,
    shown_row, staged, start_step, with_checkpoint, NewRun,
};
use crate::tables::{CheckpointRowModel, RunRecordModel, StoreModel};
use crate::values::moment_of;

verus! {

// --- runs ------------------------------------------------------------------

proof fn lemma_changed_run(
    runs: Seq<RunRecordModel>,
    p: spec_fn(RunRecordModel) -> bool,
    f: spec_fn(RunRecordModel) -> RunRecordModel,
    id: RunId,
)
    requires
        forall|row: RunRecordModel| (#[trigger] f(row)).id == row.id,
    ensures
        first_row(changed(runs, p, f), is_run(id)) == match first_row(runs, is_run(id)) {
            Some(row) => if p(row) {
                Some(f(row))
            } else {
                Some(row)
            },
            None => None,
        },
{
    let q = is_run(id);
    let after = changed(runs, p, f);
    lemma_first_is_first(runs, q);
    match first_index(runs, q) {
        Some(i) => {
            assert(is_first(after, q, i));
            lemma_first(after, q, i);
        },
        None => {
            lemma_no_first(after, q);
        },
    }
}

/// A run that was started is there: open, at its first stage, with the task it was started
/// for and nothing to restore yet.
pub proof fn law_a_started_run_is_there(
    s: StoreModel,
    command: StartRunCommandModel,
    harness: HarnessKind,
    probe: RepositoryProbeModel,
    ids: NewRun,
    now: Seq<char>,
)
    requires
        command.resume_run_id is None,
        command.workspace_roots.len() > 0,
        first_row(s.operations, is_operation(command.operation_id)) is None,
        place_refusal(s, probe, ids.workspace, ids.repository) is None,
        !run_taken(s, ids.run),
        !session_taken(s, ids.session),
        forall|i: int|
            0 <= i < s.checkpoints.len() ==> (#[trigger] s.checkpoints[i]).run_id != ids.run,
    ensures
        ({
            let (answer, after) = start_step(s, command, None, harness, Some(probe), ids, now);
            let resolved = upsert_step(s, probe, ids.workspace, ids.repository, now).0;
            &&& answer matches Ok(started) && started.run_id == ids.run && started.session_id
                == ids.session && started.workspace_id == resolved.workspace_id && started.task
                == command.task && started.latest_checkpoint is None
            &&& run_snapshot(after, ids.run, None) == Ok::<RunSnapshotModel, StoreErrorModel>(
                RunSnapshotModel {
                    run_id: ids.run,
                    workspace_id: resolved.workspace_id,
                    task: command.task,
                    status: RunStatus::Open,
                    stage: WorkflowStage::Discovering,
                    latest_checkpoint: None,
                    spec: None,
                },
            )
        }),
{
    let (resolved, known) = upsert_step(s, probe, ids.workspace, ids.repository, now);
    let after = start_step(s, command, None, harness, Some(probe), ids, now).1;
    lemma_first_is_first(s.runs, is_run(ids.run));
    assert forall|i: int| 0 <= i < s.checkpoints.len() implies !of_run(ids.run)(
        #[trigger] s.checkpoints[i],
    ) && !of_session(ids.run, ids.session)(s.checkpoints[i]) by {
        assert(s.checkpoints[i].run_id != ids.run);
    }
    lemma_no_last(s.checkpoints, of_run(ids.run));
    lemma_no_last(s.checkpoints, of_session(ids.run, ids.session));
    lemma_first_pushed(
        s.runs,
        is_run(ids.run),
        RunRecordModel {
            id: ids.run,
            workspace_id: resolved.workspace_id,
            task: command.task,
            status: RunStatus::Open,
            stage: WorkflowStage::Discovering,
            outcome: None,
            spec_change_id: None,
            current_task: None,
            created_at: now,
            updated_at: now,
        },
    );
}

// --- checkpoints -----------------------------------------------------------

/// A checkpoint as it is restored.
pub open spec fn restored(
    command: CheckpointCommandModel,
    checkpoint: CheckpointId,
    created_at: Moment,
) -> CheckpointSnapshotModel {
    CheckpointSnapshotModel {
        checkpoint_id: checkpoint,
        run_id: command.run_id,
        session_id: command.session_id,
        stage: command.stage,
        origin: command.origin,
        completed_steps: command.completed_steps,
        next_steps: command.next_steps,
        decisions: command.decisions,
        rejected: command.rejected,
        changed_files: command.changed_files,
        verification: command.verification,
        risks: command.risks,
        handoff_summary: command.handoff_summary,
        created_at,
    }
}

/// The checkpoint a command saves.
pub open spec fn saved_row(
    command: CheckpointCommandModel,
    checkpoint: CheckpointId,
    now: Seq<char>,
) -> CheckpointRowModel {
    CheckpointRowModel {
        id: checkpoint,
        run_id: command.run_id,
        session_id: command.session_id,
        operation_id: command.operation_id,
        stage: command.stage,
        origin: command.origin,
        payload: command,
        created_at: now,
    }
}

proof fn lemma_saved_checkpoints(
    s: StoreModel,
    command: CheckpointCommandModel,
    checkpoint: CheckpointId,
    now: Seq<char>,
    until: Seq<char>,
)
    requires
        checkpoint_body(s, command, checkpoint, now, until) is Ok,
    ensures
        ({
            let after = checkpoint_body(s, command, checkpoint, now, until)->Ok_0.1;
            after.checkpoints == s.checkpoints.push(saved_row(command, checkpoint, now))
        }),
{
}

/// What was saved is what is restored: after a checkpoint, the run is shown with it, word for
/// word, to the session that saved it and to anybody who asks for the run alone, and is at
/// the stage it names.
pub proof fn law_what_was_saved_is_restored(
    s: StoreModel,
    command: CheckpointCommandModel,
    checkpoint: CheckpointId,
    now: Seq<char>,
    until: Seq<char>,
)
    requires
        first_row(s.operations, is_operation(command.operation_id)) is None,
        checkpoint_step(s, command, None, checkpoint, now, until).0 is Ok,
        moment_of(now) is Ok,
    ensures
        ({
            let after = checkpoint_step(s, command, None, checkpoint, now, until).1;
            let latest = restored(command, checkpoint, moment_of(now)->Ok_0);
            &&& run_snapshot(after, command.run_id, Some(command.session_id)) matches Ok(shown)
                && shown.latest_checkpoint == Some(latest) && shown.stage == command.stage
            &&& run_snapshot(after, command.run_id, None) matches Ok(shown)
                && shown.latest_checkpoint == Some(latest) && shown.stage == command.stage
        }),
{
    let body = checkpoint_body(s, command, checkpoint, now, until)->Ok_0.1;
    let after = checkpoint_step(s, command, None, checkpoint, now, until).1;
    let row = saved_row(command, checkpoint, now);
    lemma_saved_checkpoints(s, command, checkpoint, now, until);
    lemma_last_pushed(s.checkpoints, of_run(command.run_id), row);
    lemma_last_pushed(
        s.checkpoints,
        of_session(command.run_id, command.session_id),
        row,
    );
    lemma_stage_after(s, command, checkpoint, now, until);
}

proof fn lemma_stage_after(
    s: StoreModel,
    command: CheckpointCommandModel,
    checkpoint: CheckpointId,
    now: Seq<char>,
    until: Seq<char>,
)
    requires
        checkpoint_body(s, command, checkpoint, now, until) is Ok,
    ensures
        ({
            let after = checkpoint_body(s, command, checkpoint, now, until)->Ok_0.1;
            loaded_run(after, command.run_id) matches Ok(run) && run.stage == command.stage
        }),
{
    let saved = with_checkpoint(s, command, checkpoint, now);
    let staged = staged(command.stage, now);
    lemma_changed_run(s.runs, is_run(command.run_id), staged, command.run_id);
    lemma_first_is_first(s.runs, is_run(command.run_id));
    if let Some(binding) = command.binding {
        lemma_changed_run(
            saved.runs,
            is_run(command.run_id),
            bind_run(binding, now),
            command.run_id,
        );
        lemma_first_is_first(saved.runs, is_run(command.run_id));
    }
}

/// A session is shown its own last checkpoint: another session of the same run saving one
/// does not displace it.
pub proof fn law_a_session_keeps_its_own_checkpoint(
    s: StoreModel,
    command: CheckpointCommandModel,
    checkpoint: CheckpointId,
    now: Seq<char>,
    until: Seq<char>,
    session: SessionId,
)
    requires
        checkpoint_body(s, command, checkpoint, now, until) is Ok,
        session != command.session_id,
        last_row(s.checkpoints, of_session(command.run_id, session)) is Some,
    ensures
        ({
            let after = checkpoint_body(s, command, checkpoint, now, until)->Ok_0.1;
            shown_row(after.checkpoints, command.run_id, Some(session)) == shown_row(
                s.checkpoints,
                command.run_id,
                Some(session),
            )
        }),
{
    lemma_saved_checkpoints(s, command, checkpoint, now, until);
    lemma_last_pushed(
        s.checkpoints,
        of_session(command.run_id, session),
        saved_row(command, checkpoint, now),
    );
}

/// A session that saved nothing yet is shown what the run last came to.
pub proof fn law_a_new_session_is_shown_the_latest_checkpoint(
    s: StoreModel,
    run: RunId,
    session: SessionId,
)
    requires
        last_row(s.checkpoints, of_session(run, session)) is None,
    ensures
        shown_row(s.checkpoints, run, Some(session)) == shown_row(s.checkpoints, run, None),
{
}

// --- finishing -------------------------------------------------------------

/// A run that was completed is closed: it is shown as completed with nothing lost, and
/// neither a checkpoint, nor finishing it, nor resuming it is accepted under a new operation.
pub proof fn law_a_completed_run_is_closed(
    s: StoreModel,
    command: FinishRunCommandModel,
    now: Seq<char>,
    save: CheckpointCommandModel,
    again: FinishRunCommandModel,
    resume: StartRunCommandModel,
    checkpoint: CheckpointId,
    harness: HarnessKind,
    ids: NewRun,
    later: Seq<char>,
    until: Seq<char>,
)
    requires
        first_row(s.operations, is_operation(command.operation_id)) is None,
        command.action == FinishAction::CompleteRun,
        finish_step(s, command, None, now).0 is Ok,
        save.run_id == command.run_id,
        again.run_id == command.run_id,
        resume.resume_run_id == Some(command.run_id),
        ({
            let after = finish_step(s, command, None, now).1;
            &&& first_row(after.operations, is_operation(save.operation_id)) is None
            &&& first_row(after.operations, is_operation(again.operation_id)) is None
            &&& first_row(after.operations, is_operation(resume.operation_id)) is None
        }),
    ensures
        ({
            let after = finish_step(s, command, None, now).1;
            let refused = StoreErrorModel::RunClosed(command.run_id);
            &&& loaded_run(after, command.run_id) matches Ok(run) && run.status
                == RunStatus::Completed
            &&& after.checkpoints == s.checkpoints
            &&& checkpoint_step(after, save, None, checkpoint, later, until) == (
                Err::<CheckpointResultModel, StoreErrorModel>(refused),
                after,
            )
            &&& finish_step(after, again, None, later) == (
                Err::<FinishRunResultModel, StoreErrorModel>(refused),
                after,
            )
            &&& start_step(after, resume, None, harness, None, ids, later) == (
                Err::<StartRunResultModel, StoreErrorModel>(refused),
                after,
            )
        }),
{
    lemma_first_is_first(s.runs, is_run(command.run_id));
    lemma_changed_run(
        s.runs,
        is_run(command.run_id),
        completed(command.outcome, now),
        command.run_id,
    );
}

/// Closing a session leaves the run open, and its checkpoints where they are.
pub proof fn law_closing_a_session_leaves_the_run_open(
    s: StoreModel,
    command: FinishRunCommandModel,
    now: Seq<char>,
)
    requires
        first_row(s.operations, is_operation(command.operation_id)) is None,
        command.action == FinishAction::CloseSession,
        finish_step(s, command, None, now).0 is Ok,
    ensures
        ({
            let (answer, after) = finish_step(s, command, None, now);
            &&& answer matches Ok(result) && result.status == RunStatus::Open
            &&& after.runs == s.runs
            &&& after.checkpoints == s.checkpoints
            &&& forall|i: int|
                0 <= i < s.sessions.len() && (#[trigger] s.sessions[i]).id == command.session_id
                    ==> after.sessions[i].ended_at is Some
        }),
{
}

// --- bindings --------------------------------------------------------------

/// What is left out of a binding stays what it was: binding a run to a change keeps its task,
/// and naming a task keeps its change.
pub proof fn law_a_binding_adds_to_what_is_bound(
    s: StoreModel,
    run: RunId,
    binding: SpecBindingModel,
    now: Seq<char>,
    until: Seq<char>,
)
    requires
        first_row(s.runs, is_run(run)) is Some,
    ensures
        ({
            let before = first_row(s.runs, is_run(run))->0;
            let after = first_row(with_binding(s, run, binding, now, until).runs, is_run(run));
            after matches Some(bound) && bound.spec_change_id == (if binding.change_id is Some {
                binding.change_id
            } else {
                before.spec_change_id
            }) && bound.current_task == (if binding.current_task is Some {
                binding.current_task
            } else {
                before.current_task
            }) && bound.task == before.task && bound.status == before.status
        }),
{
    lemma_changed_run(s.runs, is_run(run), bind_run(binding, now), run);
}

/// Naming a task takes it in hand: every open task of that number in the change the run is
/// bound to is running, held by the session of the run that was heard from last, until the
/// hold runs out.
pub proof fn law_naming_a_task_takes_it_in_hand(
    s: StoreModel,
    run: RunId,
    binding: SpecBindingModel,
    now: Seq<char>,
    until: Seq<char>,
    i: int,
)
    requires
        0 <= i < s.tasks.len(),
        binding.current_task matches Some(described) && task_number(described) is Some,
    ensures
        ({
            let number = task_number(binding.current_task->0)->0;
            let bound = StoreModel {
                runs: changed(s.runs, is_run(run), bind_run(binding, now)),
                ..s
            };
            let after = with_binding(s, run, binding, now, until);
            if claimable(s.changes, bound_slug(bound, run), number)(s.tasks[i]) {
                &&& after.tasks[i].status == TaskStatus::Running
                &&& after.tasks[i].claimed_by == claimant(s, run)
                &&& after.tasks[i].lease_until == Some(until)
            } else {
                after.tasks[i] == s.tasks[i]
            }
        }),
{
}

// --- closing tasks ---------------------------------------------------------

/// A tick settles a task: it is done, holds the output that proved it, and is held by nobody;
/// tasks of other numbers or changes stay as they are.
pub proof fn law_a_tick_settles_the_task(
    s: StoreModel,
    run_id: RunId,
    run: RunViewModel,
    done: TaskDoneModel,
    now: Seq<char>,
    i: int,
)
    requires
        close_task_step(s, run_id, run, done, now) is Ok,
        0 <= i < s.tasks.len(),
    ensures
        ({
            let change = tick_target(s, run_id, run)->Ok_0;
            let after = close_task_step(s, run_id, run, done, now)->Ok_0.1;
            if s.tasks[i].change_id == change && s.tasks[i].number == done.number {
                &&& after.tasks[i].status == TaskStatus::Done
                &&& after.tasks[i].evidence == Some(done.output)
                &&& after.tasks[i].verified_at == Some(now)
                &&& after.tasks[i].claimed_by is None
                &&& after.tasks[i].lease_until is None
            } else {
                after.tasks[i] == s.tasks[i]
            }
        }),
{
}

/// A change is ready exactly when the last of its open tasks is closed: the answer to a tick
/// says so if and only if no task of the change is open any more, and then the change is.
pub proof fn law_a_change_is_ready_when_no_task_is_open(
    s: StoreModel,
    run_id: RunId,
    run: RunViewModel,
    done: TaskDoneModel,
    now: Seq<char>,
)
    requires
        close_task_step(s, run_id, run, done, now) is Ok,
    ensures
        ({
            let change = tick_target(s, run_id, run)->Ok_0;
            let (closed_task, after) = close_task_step(s, run_id, run, done, now)->Ok_0;
            &&& closed_task.change_ready <==> forall|i: int|
                0 <= i < after.tasks.len() && (#[trigger] after.tasks[i]).change_id == change
                    ==> !open_status(after.tasks[i].status)
            &&& closed_task.change_ready ==> forall|i: int|
                0 <= i < after.changes.len() && (#[trigger] after.changes[i]).id == change
                    ==> after.changes[i].status == ChangeStatus::Ready
            &&& !closed_task.change_ready ==> after.changes == s.changes
        }),
{
    let change = tick_target(s, run_id, run)->Ok_0;
    let (closed_task, after) = close_task_step(s, run_id, run, done, now)->Ok_0;
    let keys = number_keys(after.tasks);
    let marks = open_tasks_of(after.tasks, change);
    let order = arranged(keys, marks, ascending());
    law_arranged_lists_the_selected(keys, marks, ascending());
    if order.len() > 0 {
        assert(marks[order[0]]);
        assert(after.tasks[order[0]].change_id == change);
        assert(open_status(after.tasks[order[0]].status));
    } else {
        assert forall|i: int|
            0 <= i < after.tasks.len() && (#[trigger] after.tasks[i]).change_id == change implies
            !open_status(after.tasks[i].status) by {
            if open_status(after.tasks[i].status) {
                assert(marks[i]);
                assert(order.contains(i));
            }
        }
    }
}

/// Every tick leaves a record of what was run and what it printed, one that misses an expected
/// line included: missing lines are named, and do not refuse the tick.
pub proof fn law_every_tick_is_recorded(
    s: StoreModel,
    run_id: RunId,
    run: RunViewModel,
    done: TaskDoneModel,
    now: Seq<char>,
)
    requires
        close_task_step(s, run_id, run, done, now) is Ok,
    ensures
        ({
            let after = close_task_step(s, run_id, run, done, now)->Ok_0.1;
            &&& after.ticks.len() == s.ticks.len() + 1
            &&& after.ticks.last().number == done.number
            &&& after.ticks.last().verify_command == done.verify_command
            &&& after.ticks.last().output == done.output
            &&& after.ticks.last().run_id == run_id
        }),
{
}

// --- what a task declares --------------------------------------------------

/// A declared path matches only at the boundary of a name: a file whose path merely ends in
/// the same letters is not declared.
pub proof fn law_a_declared_path_matches_at_a_boundary(
    declared: Seq<char>,
    front: Seq<char>,
)
    requires
        front.len() > 0,
        front.last() != '/',
        declared_tail(declared).len() > 0,
    ensures
        !declares(declared, front + declared_tail(declared)),
        declares(declared, front + "/"@ + declared_tail(declared)),
        declares(declared, declared_tail(declared)),
{
    reveal_strlit("/");
    let tail = declared_tail(declared);
    let whole = "/"@ + tail;
    let edited = front + tail;
    assert(edited.len() != tail.len());
    if whole.is_suffix_of(edited) {
        assert(edited.subrange(edited.len() - whole.len(), edited.len() as int) == whole);
        assert(whole[0] == edited[edited.len() - whole.len()]);
        assert(edited[front.len() - 1] == front.last());
    }
    let proper = front + "/"@ + tail;
    assert(proper.subrange(proper.len() - whole.len(), proper.len() as int) =~= whole);
}

} // verus!
