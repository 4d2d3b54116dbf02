//! What holds of runs and the sessions that work on them: what is opened, resumed, joined,
//! saved and finished, row by row.

use vstd::prelude::*;

use crate::domain::{
    CheckpointCommandModel, CheckpointResultModel, FinishRunCommandModel, FinishRunResultModel,
    RequestModel, ResponseModel, SpecBindingModel, StartRunCommandModel, StartRunResultModel,
};
use crate::error::{DomainErrorModel, StoreErrorModel};
use crate::git::RepositoryProbeModel;
use crate::ids::{CheckpointId, OperationId, RunId, SessionId, WorkspaceId};
use crate::operations::is_operation;
use crate::order::{
    arranged, law_arranged_lists_the_selected, lemma_text_lt_irreflexive, lemma_text_lt_total,
    precedes, text_lt,
};
use crate::plan::{is_run, latest_first, seen_keys, write_binding_step};
use crate::repositories::resolve_step;
use crate::rows::{
    any_row, first_row, is_first, is_last, lemma_first, lemma_first_is_first, lemma_last,
    lemma_no_first, lemma_no_last, tally,
};
use crate::sessions::{
    adopt_step, attach_step, bind_session_step, bound_to, edit_in, hinted, hinted_with_run,
    newest_first, observed, open_runs_of, open_sessions_of, path_run_step, reasoned, run_in_flight,
    session_behind, speaking_session, start_keys, title_of, touched_keys, unexplained, with_agent,
    with_agent_returned, with_session_closed, with_session_seen, notice_step, SessionBinding,
};
use crate::states::{
    CheckpointOrigin, FinishAction, HarnessKind, RunStatus, WorkflowStage,
};
use crate::store::{
    checkpoint_step, finish_step, is_session, of_run, of_session, run_snapshot, shown_row,
    start_step, NewRun,
};
use crate::tables::{
    AgentRowModel, CheckpointRowModel, LedgerRowModel, NoticeRowModel, OperationRowModel,
    RunRecordModel, SessionRowModel, StoreModel,
};
use crate::text::{joined, trimmed, trimmed_end, words};
use crate::text_laws::blank;

verus! {

// --- opening and resuming --------------------------------------------------

/// No operation of that identifier was answered before.
pub open spec fn unanswered(s: StoreModel, id: OperationId) -> bool {
    forall|i: int| 0 <= i < s.operations.len() ==> (#[trigger] s.operations[i]).id != id
}

/// A run that is there, the first of its identifier.
pub open spec fn is_the_run(runs: Seq<RunRecordModel>, id: RunId, k: int) -> bool {
    &&& 0 <= k < runs.len() && runs[k].id == id
    &&& forall|j: int| 0 <= j < k ==> (#[trigger] runs[j]).id != id
}

proof fn lemma_the_run(s: StoreModel, id: RunId, k: int)
    requires
        is_the_run(s.runs, id, k),
    ensures
        first_row(s.runs, is_run(id)) == Some(s.runs[k]),
{
    assert(is_first(s.runs, is_run(id), k));
    lemma_first(s.runs, is_run(id), k);
}

/// A new run is written down as it was asked for: open, at its first stage, in the workspace
/// its directory belongs to, with a session of the harness that asked; nothing else changes but
/// what the directory needs, and that the operation is answered.
pub proof fn law_a_new_run_is_written_down(
    s: StoreModel,
    command: StartRunCommandModel,
    harness: HarnessKind,
    probe: RepositoryProbeModel,
    ids: NewRun,
    now: Seq<char>,
)
    requires
        command.resume_run_id is None,
        unanswered(s, command.operation_id),
        start_step(s, command, None, harness, Some(probe), ids, now).0 is Ok,
    ensures
        ({
            let (answer, after) = start_step(s, command, None, harness, Some(probe), ids, now);
            let (place, known) = resolve_step(s, probe, ids.workspace, ids.repository, now);
            let workspace = place->Ok_0.workspace_id;
            &&& place is Ok
            &&& answer->Ok_0.run_id == ids.run
            &&& answer->Ok_0.session_id == ids.session
            &&& answer->Ok_0.workspace_id == workspace
            &&& answer->Ok_0.task == command.task
            &&& answer->Ok_0.stage == WorkflowStage::Discovering
            &&& answer->Ok_0.instructions.len() == 0
            &&& after.runs == s.runs.push(
                RunRecordModel {
                    id: ids.run,
                    workspace_id: workspace,
                    task: command.task,
                    status: RunStatus::Open,
                    stage: WorkflowStage::Discovering,
                    outcome: None,
                    spec_change_id: None,
                    current_task: None,
                    created_at: now,
                    updated_at: now,
                },
            )
            &&& after.sessions == s.sessions.push(
                SessionRowModel {
                    id: ids.session,
                    run_id: ids.run,
                    harness,
                    external_session_hint: command.external_session_hint,
                    started_at: now,
                    last_seen_at: None,
                    ended_at: None,
                },
            )
            &&& after.operations == s.operations.push(
                OperationRowModel {
                    id: command.operation_id,
                    request: RequestModel::StartRun(command),
                    response: ResponseModel::StartRun(answer->Ok_0),
                    created_at: now,
                },
            )
            &&& after == (StoreModel {
                runs: after.runs,
                sessions: after.sessions,
                operations: after.operations,
                workspaces: known.workspaces,
                repositories: known.repositories,
                ..s
            })
        }),
{
    lemma_no_first(s.operations, is_operation(command.operation_id));
}

/// Resuming a run attaches a session to it and changes nothing else of it: the answer tells the
/// run's own task, stage and workspace, whatever the command says, and what the run was last
/// saved with.
pub proof fn law_a_resumed_run_is_what_it_was(
    s: StoreModel,
    command: StartRunCommandModel,
    harness: HarnessKind,
    probe: Option<RepositoryProbeModel>,
    ids: NewRun,
    now: Seq<char>,
    run: RunId,
    k: int,
)
    requires
        command.resume_run_id == Some(run),
        unanswered(s, command.operation_id),
        is_the_run(s.runs, run, k),
    ensures
        ({
            let (answer, after) = start_step(s, command, None, harness, probe, ids, now);
            &&& s.runs[k].status == RunStatus::Completed ==> answer is Err
                && answer->Err_0 == StoreErrorModel::RunClosed(run)
            &&& answer is Ok ==> {
                &&& s.runs[k].status == RunStatus::Open
                &&& answer->Ok_0.run_id == run
                &&& answer->Ok_0.session_id == ids.session
                &&& answer->Ok_0.workspace_id == s.runs[k].workspace_id
                &&& answer->Ok_0.task == s.runs[k].task
                &&& answer->Ok_0.stage == s.runs[k].stage
                &&& run_snapshot(s, run, Some(ids.session)) is Ok
                &&& run_snapshot(s, run, Some(ids.session))->Ok_0.latest_checkpoint
                    == answer->Ok_0.latest_checkpoint
                &&& after.runs == s.runs
                &&& after.sessions == s.sessions.push(
                    SessionRowModel {
                        id: ids.session,
                        run_id: run,
                        harness,
                        external_session_hint: command.external_session_hint,
                        started_at: now,
                        last_seen_at: None,
                        ended_at: None,
                    },
                )
                &&& after == (StoreModel {
                    sessions: after.sessions,
                    operations: after.operations,
                    ..s
                })
            }
        }),
{
    lemma_no_first(s.operations, is_operation(command.operation_id));
    lemma_the_run(s, run, k);
}

/// A run that is not there cannot be resumed, and one cannot be opened nowhere.
pub proof fn law_a_run_is_not_opened_nowhere(
    s: StoreModel,
    command: StartRunCommandModel,
    harness: HarnessKind,
    probe: Option<RepositoryProbeModel>,
    ids: NewRun,
    now: Seq<char>,
)
    requires
        unanswered(s, command.operation_id),
    ensures
        command.resume_run_id matches Some(run) ==> (forall|i: int|
            0 <= i < s.runs.len() ==> (#[trigger] s.runs[i]).id != run) ==> start_step(
            s,
            command,
            None,
            harness,
            probe,
            ids,
            now,
        ) == (Err::<StartRunResultModel, StoreErrorModel>(StoreErrorModel::RunNotFound(run)), s),
        command.resume_run_id is None && (command.workspace_roots.len() == 0 || probe is None)
            ==> start_step(s, command, None, harness, probe, ids, now) == (
            Err::<StartRunResultModel, StoreErrorModel>(
                StoreErrorModel::Domain(DomainErrorModel::MissingWorkspaceRoot),
            ),
            s,
        ),
{
    lemma_no_first(s.operations, is_operation(command.operation_id));
    if let Some(run) = command.resume_run_id {
        if forall|i: int| 0 <= i < s.runs.len() ==> (#[trigger] s.runs[i]).id != run {
            lemma_no_first(s.runs, is_run(run));
        }
    }
}

// --- checkpoints -----------------------------------------------------------

/// A session is shown the last checkpoint it saved in the run; where it saved none, the last
/// anybody saved in it; and nothing where nobody did.
pub proof fn law_the_last_checkpoint_is_shown(
    checkpoints: Seq<CheckpointRowModel>,
    run: RunId,
    session: SessionId,
    k: int,
)
    ensures
        0 <= k < checkpoints.len() && checkpoints[k].run_id == run && checkpoints[k].session_id
            == session && (forall|j: int|
            k < j < checkpoints.len() ==> !((#[trigger] checkpoints[j]).run_id == run
                && checkpoints[j].session_id == session)) ==> shown_row(
            checkpoints,
            run,
            Some(session),
        ) == Some(checkpoints[k]),
        0 <= k < checkpoints.len() && checkpoints[k].run_id == run && (forall|j: int|
            k < j < checkpoints.len() ==> (#[trigger] checkpoints[j]).run_id != run) ==> shown_row(
            checkpoints,
            run,
            None,
        ) == Some(checkpoints[k]),
        (forall|j: int|
            0 <= j < checkpoints.len() ==> !((#[trigger] checkpoints[j]).run_id == run
                && checkpoints[j].session_id == session)) ==> shown_row(
            checkpoints,
            run,
            Some(session),
        ) == shown_row(checkpoints, run, None),
        (forall|j: int|
            0 <= j < checkpoints.len() ==> (#[trigger] checkpoints[j]).run_id != run)
            ==> shown_row(checkpoints, run, None) is None,
{
    let own = of_session(run, session);
    let any = of_run(run);
    if 0 <= k < checkpoints.len() && checkpoints[k].run_id == run && checkpoints[k].session_id
        == session && (forall|j: int|
        k < j < checkpoints.len() ==> !((#[trigger] checkpoints[j]).run_id == run
            && checkpoints[j].session_id == session)) {
        assert(is_last(checkpoints, own, k));
        lemma_last(checkpoints, own, k);
    }
    if 0 <= k < checkpoints.len() && checkpoints[k].run_id == run && (forall|j: int|
        k < j < checkpoints.len() ==> (#[trigger] checkpoints[j]).run_id != run) {
        assert(is_last(checkpoints, any, k));
        lemma_last(checkpoints, any, k);
    }
    if forall|j: int|
        0 <= j < checkpoints.len() ==> !((#[trigger] checkpoints[j]).run_id == run
            && checkpoints[j].session_id == session) {
        lemma_no_last(checkpoints, own);
    }
    if forall|j: int| 0 <= j < checkpoints.len() ==> (#[trigger] checkpoints[j]).run_id != run {
        lemma_no_last(checkpoints, any);
    }
}

/// A checkpoint that ticks nothing and binds nothing is written down word for word, moves its
/// run to the stage it names, and touches nothing else.
pub proof fn law_a_checkpoint_is_written_down(
    s: StoreModel,
    command: CheckpointCommandModel,
    checkpoint: CheckpointId,
    now: Seq<char>,
    until: Seq<char>,
    i: int,
)
    requires
        command.task_done is None,
        command.binding is None,
        unanswered(s, command.operation_id),
        checkpoint_step(s, command, None, checkpoint, now, until).0 is Ok,
        0 <= i < s.runs.len(),
    ensures
        ({
            let (answer, after) = checkpoint_step(s, command, None, checkpoint, now, until);
            &&& answer == Ok::<CheckpointResultModel, StoreErrorModel>(
                CheckpointResultModel {
                    checkpoint_id: checkpoint,
                    run_id: command.run_id,
                    stage: command.stage,
                    task: None,
                },
            )
            &&& after.checkpoints == s.checkpoints.push(
                CheckpointRowModel {
                    id: checkpoint,
                    run_id: command.run_id,
                    session_id: command.session_id,
                    operation_id: command.operation_id,
                    stage: command.stage,
                    origin: command.origin,
                    payload: command,
                    created_at: now,
                },
            )
            &&& after.runs.len() == s.runs.len()
            &&& after.runs[i] == if s.runs[i].id == command.run_id {
                RunRecordModel { stage: command.stage, updated_at: now, ..s.runs[i] }
            } else {
                s.runs[i]
            }
            &&& after == (StoreModel {
                checkpoints: after.checkpoints,
                runs: after.runs,
                operations: after.operations,
                ..s
            })
        }),
{
    lemma_no_first(s.operations, is_operation(command.operation_id));
}

/// Nothing is saved in a run that is not there, or that is closed, or by a session nobody
/// knows; and finishing is refused alike.
pub proof fn law_just_an_open_run_is_written_to(
    s: StoreModel,
    command: CheckpointCommandModel,
    checkpoint: CheckpointId,
    finish: FinishRunCommandModel,
    now: Seq<char>,
    until: Seq<char>,
    k: int,
)
    requires
        unanswered(s, command.operation_id),
        unanswered(s, finish.operation_id),
        finish.run_id == command.run_id,
        finish.session_id == command.session_id,
    ensures
        ({
            let saved = checkpoint_step(s, command, None, checkpoint, now, until);
            let finished = finish_step(s, finish, None, now);
            let refused = |error: StoreErrorModel|
                {
                    &&& saved == (Err::<CheckpointResultModel, StoreErrorModel>(error), s)
                    &&& finished == (Err::<FinishRunResultModel, StoreErrorModel>(error), s)
                };
            &&& (forall|i: int|
                0 <= i < s.runs.len() ==> (#[trigger] s.runs[i]).id != command.run_id) ==> refused(
                StoreErrorModel::RunNotFound(command.run_id),
            )
            &&& is_the_run(s.runs, command.run_id, k) && s.runs[k].status == RunStatus::Completed
                ==> refused(StoreErrorModel::RunClosed(command.run_id))
            &&& is_the_run(s.runs, command.run_id, k) && s.runs[k].status == RunStatus::Open && (
            forall|i: int|
                0 <= i < s.sessions.len() ==> (#[trigger] s.sessions[i]).id
                    != command.session_id) ==> refused(
                StoreErrorModel::SessionNotFound(command.session_id),
            )
        }),
{
    lemma_no_first(s.operations, is_operation(command.operation_id));
    lemma_no_first(s.operations, is_operation(finish.operation_id));
    if forall|i: int| 0 <= i < s.runs.len() ==> (#[trigger] s.runs[i]).id != command.run_id {
        lemma_no_first(s.runs, is_run(command.run_id));
    }
    if is_the_run(s.runs, command.run_id, k) {
        lemma_the_run(s, command.run_id, k);
        if forall|i: int|
            0 <= i < s.sessions.len() ==> (#[trigger] s.sessions[i]).id != command.session_id {
            assert(!any_row(s.sessions, is_session(command.session_id)));
        }
    }
}

// --- finishing -------------------------------------------------------------

/// Finishing ends the session that finishes, where it had not ended; completing closes the run
/// with its outcome as well. Every other session and run stays as it is.
pub proof fn law_finishing_ends_just_its_session(
    s: StoreModel,
    command: FinishRunCommandModel,
    now: Seq<char>,
    i: int,
    j: int,
)
    requires
        unanswered(s, command.operation_id),
        finish_step(s, command, None, now).0 is Ok,
        0 <= i < s.sessions.len(),
        0 <= j < s.runs.len(),
    ensures
        ({
            let (answer, after) = finish_step(s, command, None, now);
            let completes = command.action == FinishAction::CompleteRun;
            &&& answer == Ok::<FinishRunResultModel, StoreErrorModel>(
                FinishRunResultModel {
                    run_id: command.run_id,
                    session_id: command.session_id,
                    status: if completes {
                        RunStatus::Completed
                    } else {
                        RunStatus::Open
                    },
                    session_closed: true,
                    outcome: command.outcome,
                },
            )
            &&& after.sessions.len() == s.sessions.len()
            &&& after.sessions[i] == if s.sessions[i].id == command.session_id
                && s.sessions[i].ended_at is None {
                SessionRowModel { ended_at: Some(now), ..s.sessions[i] }
            } else {
                s.sessions[i]
            }
            &&& after.runs.len() == s.runs.len()
            &&& after.runs[j] == if completes && s.runs[j].id == command.run_id {
                RunRecordModel {
                    status: RunStatus::Completed,
                    stage: WorkflowStage::Completed,
                    outcome: Some(command.outcome),
                    updated_at: now,
                    ..s.runs[j]
                }
            } else {
                s.runs[j]
            }
            &&& after == (StoreModel {
                sessions: after.sessions,
                runs: after.runs,
                operations: after.operations,
                ..s
            })
        }),
{
    lemma_no_first(s.operations, is_operation(command.operation_id));
}

// --- the run in flight -----------------------------------------------------

/// The run in flight is an open run of the workspace, and none of its open runs was touched
/// later, or as late and opened after it; there is one just where the workspace has an open run.
pub proof fn law_the_run_in_flight_was_touched_last(s: StoreModel, workspace: WorkspaceId, i: int)
    ensures
        run_in_flight(s, workspace) matches Some(run) ==> exists|k: int|
            {
                &&& 0 <= k < s.runs.len()
                &&& (#[trigger] s.runs[k]).id == run
                &&& s.runs[k].workspace_id == workspace
                &&& s.runs[k].status == RunStatus::Open
                &&& 0 <= i < s.runs.len() && s.runs[i].workspace_id == workspace
                    && s.runs[i].status == RunStatus::Open ==> !text_lt(
                    s.runs[k].updated_at,
                    s.runs[i].updated_at,
                ) && (s.runs[k].updated_at == s.runs[i].updated_at ==> i <= k)
            },
        0 <= i < s.runs.len() && s.runs[i].workspace_id == workspace && s.runs[i].status
            == RunStatus::Open ==> run_in_flight(s, workspace) is Some,
{
    let keys = touched_keys(s.runs);
    let marks = open_runs_of(s.runs, workspace);
    let order = arranged(keys, marks, newest_first());
    law_arranged_lists_the_selected(keys, marks, newest_first());
    let open = 0 <= i < s.runs.len() && s.runs[i].workspace_id == workspace && s.runs[i].status
        == RunStatus::Open;
    if open {
        assert(marks[i]);
        assert(order.contains(i));
    }
    if order.len() > 0 {
        let k = order[0];
        assert(marks[k]);
        assert(s.runs[k].workspace_id == workspace);
        if open {
            let q = choose|q: int| 0 <= q < order.len() && order[q] == i;
            lemma_text_lt_irreflexive(s.runs[k].updated_at);
            if q > 0 {
                assert(precedes(keys, newest_first(), order[0], order[q]));
                lemma_text_lt_total(s.runs[k].updated_at, s.runs[i].updated_at);
            }
        }
    }
}

/// A harness session is behind the last session that began under its name; it is bound to the
/// run of that one, where the run is there.
pub proof fn law_a_harness_session_is_behind_the_last_that_began(
    s: StoreModel,
    hint: Seq<char>,
    i: int,
    q: int,
)
    ensures
        session_behind(s, hint) matches Some(id) ==> exists|k: int|
            {
                &&& 0 <= k < s.sessions.len()
                &&& (#[trigger] s.sessions[k]).id == id
                &&& s.sessions[k].external_session_hint == Some(hint)
                &&& 0 <= i < s.sessions.len() && s.sessions[i].external_session_hint == Some(hint)
                    ==> !text_lt(s.sessions[k].started_at, s.sessions[i].started_at)
            },
        0 <= i < s.sessions.len() && s.sessions[i].external_session_hint == Some(hint)
            ==> session_behind(s, hint) is Some,
        bound_to(s, hint) matches Some(binding) ==> !binding.opened_run && exists|k: int, r: int|
            {
                &&& 0 <= k < s.sessions.len()
                &&& (#[trigger] s.sessions[k]).id == binding.session_id
                &&& s.sessions[k].external_session_hint == Some(hint)
                &&& s.sessions[k].run_id == binding.run_id
                &&& #[trigger] is_the_run(s.runs, binding.run_id, r)
                &&& s.runs[r].workspace_id == binding.workspace_id
                &&& 0 <= i < s.sessions.len() && s.sessions[i].external_session_hint == Some(hint)
                    && is_the_run(s.runs, s.sessions[i].run_id, q) ==> !text_lt(
                    s.sessions[k].started_at,
                    s.sessions[i].started_at,
                )
            },
        0 <= i < s.sessions.len() && s.sessions[i].external_session_hint == Some(hint)
            && is_the_run(s.runs, s.sessions[i].run_id, q) ==> bound_to(s, hint) is Some,
{
    let keys = start_keys(s.sessions);
    let marks = hinted(s.sessions, hint);
    let order = arranged(keys, marks, latest_first());
    law_arranged_lists_the_selected(keys, marks, latest_first());
    let ours = 0 <= i < s.sessions.len() && s.sessions[i].external_session_hint == Some(hint);
    if ours {
        assert(marks[i]);
        assert(order.contains(i));
    }
    if order.len() > 0 {
        let k = order[0];
        assert(marks[k]);
        assert(s.sessions[k].external_session_hint == Some(hint));
        if ours {
            let place = choose|n: int| 0 <= n < order.len() && order[n] == i;
            lemma_text_lt_irreflexive(s.sessions[k].started_at);
            if place > 0 {
                assert(precedes(keys, latest_first(), order[0], order[place]));
                lemma_text_lt_total(s.sessions[k].started_at, s.sessions[i].started_at);
            }
        }
    }
    let bound_marks = hinted_with_run(s, hint);
    let bound_order = arranged(keys, bound_marks, latest_first());
    law_arranged_lists_the_selected(keys, bound_marks, latest_first());
    let bound = ours && is_the_run(s.runs, s.sessions[i].run_id, q);
    if bound {
        let p = is_run(s.sessions[i].run_id);
        assert(p(s.runs[q]));
        assert(bound_marks[i]);
        assert(bound_order.contains(i));
    }
    if bound_order.len() > 0 {
        let k = bound_order[0];
        assert(bound_marks[k]);
        let p = is_run(s.sessions[k].run_id);
        lemma_first_is_first(s.runs, p);
        let r = crate::rows::first_index(s.runs, p)->0;
        assert forall|j: int| 0 <= j < r implies (#[trigger] s.runs[j]).id
            != s.sessions[k].run_id by {
            assert(!p(s.runs[j]));
        }
        assert(is_the_run(s.runs, s.sessions[k].run_id, r));
        lemma_the_run(s, s.sessions[k].run_id, r);
        assert(s.sessions[k].external_session_hint == Some(hint));
        if bound {
            let place = choose|n: int| 0 <= n < bound_order.len() && bound_order[n] == i;
            lemma_text_lt_irreflexive(s.sessions[k].started_at);
            if place > 0 {
                assert(precedes(keys, latest_first(), bound_order[0], bound_order[place]));
                lemma_text_lt_total(s.sessions[k].started_at, s.sessions[i].started_at);
            }
            assert(!text_lt(s.sessions[k].started_at, s.sessions[i].started_at));
        }
        let binding = bound_to(s, hint)->0;
        assert(s.sessions[k].run_id == binding.run_id);
        assert(s.runs[r].workspace_id == binding.workspace_id);
        assert(is_the_run(s.runs, binding.run_id, r));
    }
}

/// The session of a run that speaks is an open one, and none of its open sessions was heard
/// from later.
pub proof fn law_the_speaking_session_was_heard_from_last(s: StoreModel, run: RunId, i: int)
    ensures
        speaking_session(s, run) matches Some(id) ==> exists|k: int|
            {
                &&& 0 <= k < s.sessions.len()
                &&& (#[trigger] s.sessions[k]).id == id
                &&& s.sessions[k].run_id == run
                &&& s.sessions[k].ended_at is None
                &&& 0 <= i < s.sessions.len() && s.sessions[i].run_id == run
                    && s.sessions[i].ended_at is None ==> (s.sessions[i].last_seen_at matches Some(
                    at,
                ) ==> (s.sessions[k].last_seen_at matches Some(seen) && !text_lt(seen, at)))
            },
        0 <= i < s.sessions.len() && s.sessions[i].run_id == run && s.sessions[i].ended_at is None
            ==> speaking_session(s, run) is Some,
{
    let keys = seen_keys(s.sessions);
    let marks = open_sessions_of(s.sessions, run);
    let order = arranged(keys, marks, newest_first());
    law_arranged_lists_the_selected(keys, marks, newest_first());
    let ours = 0 <= i < s.sessions.len() && s.sessions[i].run_id == run
        && s.sessions[i].ended_at is None;
    if ours {
        assert(marks[i]);
        assert(order.contains(i));
    }
    if order.len() > 0 {
        let k = order[0];
        assert(marks[k]);
        assert(s.sessions[k].run_id == run);
        if ours {
            let q = choose|q: int| 0 <= q < order.len() && order[q] == i;
            if q > 0 {
                assert(precedes(keys, newest_first(), order[0], order[q]));
            }
            if let Some(at) = s.sessions[i].last_seen_at {
                lemma_text_lt_irreflexive(at);
                if let Some(seen) = s.sessions[k].last_seen_at {
                    lemma_text_lt_total(at, seen);
                }
            }
        }
    }
}

// --- joining ---------------------------------------------------------------

/// A session that is bound for the first time joins the run in flight of its workspace, or
/// opens one titled after its prompt where there is none; it is written down as one that was
/// heard from just now.
pub proof fn law_a_first_binding_joins_the_run_in_flight(
    s: StoreModel,
    hint: Seq<char>,
    probe: RepositoryProbeModel,
    task: Seq<char>,
    harness: HarnessKind,
    ids: NewRun,
    now: Seq<char>,
)
    requires
        bound_to(s, hint) is None,
        bind_session_step(s, hint, probe, task, harness, ids, now).0 is Ok,
    ensures
        ({
            let (answer, after) = bind_session_step(s, hint, probe, task, harness, ids, now);
            let (place, known) = resolve_step(s, probe, ids.workspace, ids.repository, now);
            let workspace = place->Ok_0.workspace_id;
            let flight = run_in_flight(known, workspace);
            let run = match flight {
                Some(run) => run,
                None => ids.run,
            };
            &&& place is Ok
            &&& answer->Ok_0 == (SessionBinding {
                run_id: run,
                session_id: ids.session,
                workspace_id: workspace,
                opened_run: flight is None,
            })
            &&& after.sessions == s.sessions.push(
                SessionRowModel {
                    id: ids.session,
                    run_id: run,
                    harness,
                    external_session_hint: Some(hint),
                    started_at: now,
                    last_seen_at: Some(now),
                    ended_at: None,
                },
            )
            &&& flight is Some ==> after.runs == s.runs
            &&& flight is None ==> after.runs == s.runs.push(
                RunRecordModel {
                    id: ids.run,
                    workspace_id: workspace,
                    task: title_of(task),
                    status: RunStatus::Open,
                    stage: WorkflowStage::Discovering,
                    outcome: None,
                    spec_change_id: None,
                    current_task: None,
                    created_at: now,
                    updated_at: now,
                },
            )
            &&& after == (StoreModel { sessions: after.sessions, runs: after.runs, ..known })
        }),
{
}

/// A session that merely attaches joins the run in flight as well, and where there is none
/// nothing is written.
pub proof fn law_attaching_joins_the_run_in_flight(
    s: StoreModel,
    hint: Seq<char>,
    probe: RepositoryProbeModel,
    harness: HarnessKind,
    ids: NewRun,
    now: Seq<char>,
)
    requires
        attach_step(s, hint, probe, harness, ids, now).0 is Ok,
    ensures
        ({
            let (answer, after) = attach_step(s, hint, probe, harness, ids, now);
            let (place, known) = resolve_step(s, probe, ids.workspace, ids.repository, now);
            let workspace = place->Ok_0.workspace_id;
            &&& bound_to(s, hint) is Some ==> answer->Ok_0 == bound_to(s, hint) && after == s
            &&& bound_to(s, hint) is None && run_in_flight(known, workspace) is None
                ==> answer->Ok_0 is None && after == s
            &&& bound_to(s, hint) is None ==> (run_in_flight(known, workspace) matches Some(run)
                ==> {
                &&& answer->Ok_0 == Some(
                    SessionBinding {
                        run_id: run,
                        session_id: ids.session,
                        workspace_id: workspace,
                        opened_run: false,
                    },
                )
                &&& after.sessions == s.sessions.push(
                    SessionRowModel {
                        id: ids.session,
                        run_id: run,
                        harness,
                        external_session_hint: Some(hint),
                        started_at: now,
                        last_seen_at: Some(now),
                        ended_at: None,
                    },
                )
                &&& after == (StoreModel { sessions: after.sessions, ..known })
            })
        }),
{
}

/// Adopting joins the run in flight where there is one, under a task that says something, and
/// opens one otherwise; a run that is named wins over both.
pub proof fn law_adopting_joins_what_is_in_flight(
    s: StoreModel,
    command: StartRunCommandModel,
    opening: Option<DomainErrorModel>,
    joining_refusal: Option<DomainErrorModel>,
    harness: HarnessKind,
    probe: RepositoryProbeModel,
    looking: NewRun,
    ids: NewRun,
    now: Seq<char>,
)
    ensures
        ({
            let adopted = adopt_step(
                s,
                command,
                opening,
                joining_refusal,
                harness,
                Some(probe),
                looking,
                ids,
                now,
            );
            let (place, known) = resolve_step(s, probe, looking.workspace, looking.repository, now);
            let flight = run_in_flight(known, place->Ok_0.workspace_id);
            let resuming = StartRunCommandModel { resume_run_id: flight, ..command };
            let joined = start_step(known, resuming, joining_refusal, harness, None, ids, now);
            &&& command.resume_run_id is Some ==> adopted == start_step(
                s,
                command,
                opening,
                harness,
                Some(probe),
                ids,
                now,
            )
            &&& command.resume_run_id is None && command.workspace_roots.len() > 0 && place is Ok
                && flight is None ==> adopted == start_step(
                known,
                command,
                opening,
                harness,
                Some(probe),
                ids,
                now,
            )
            &&& command.resume_run_id is None && command.workspace_roots.len() > 0 && place is Ok
                && flight is Some && run_snapshot(known, flight->0, None) is Ok && joined.0 is Ok
                ==> {
                let task = trimmed(command.task);
                let answer = adopted.0->Ok_0;
                &&& adopted.0 is Ok
                &&& answer.run_id == joined.0->Ok_0.run_id
                &&& answer.session_id == joined.0->Ok_0.session_id
                &&& answer.workspace_id == joined.0->Ok_0.workspace_id
                &&& answer.stage == joined.0->Ok_0.stage
                &&& answer.latest_checkpoint == joined.0->Ok_0.latest_checkpoint
                &&& answer.task == if task.len() > 0 {
                    task
                } else {
                    joined.0->Ok_0.task
                }
                &&& adopted.1.sessions == joined.1.sessions
                &&& adopted.1.runs.len() == joined.1.runs.len()
                &&& forall|i: int|
                    0 <= i < joined.1.runs.len() ==> (#[trigger] adopted.1.runs[i]) == if (
                    joined.1.runs[i].id == flight->0) && task.len() > 0 && task
                        != joined.0->Ok_0.task {
                        RunRecordModel { task, updated_at: now, ..joined.1.runs[i] }
                    } else {
                        joined.1.runs[i]
                    }
            }
        }),
{
    let (place, known) = resolve_step(s, probe, looking.workspace, looking.repository, now);
    if place is Ok {
        let flight = run_in_flight(known, place->Ok_0.workspace_id);
        if flight is Some {
            assert(path_run_step(s, probe, looking, now).0 is Ok ==> path_run_step(
                s,
                probe,
                looking,
                now,
            ).0->Ok_0->0.run_id == flight->0);
        }
    }
}

// --- titles ----------------------------------------------------------------

/// A title is the words of the prompt on one line; one of more than a hundred and sixty
/// characters is cut there, without whitespace at the cut, and says so.
pub proof fn law_a_title_is_the_start_of_the_prompt(task: Seq<char>)
    ensures
        ({
            let line = joined(words(task), " "@);
            &&& line.len() <= 160 ==> title_of(task) == line
            &&& line.len() > 160 ==> title_of(task) == trimmed_end(line.take(160)) + "…"@
        }),
{
}

// --- hearing from sessions -------------------------------------------------

/// Ending a harness session ends each of its sessions that had not ended, and hearing from one
/// marks the sessions under the identifier behind it; every other stays as it is, and so does
/// everything else.
pub proof fn law_hearing_from_a_session_touches_just_that(
    s: StoreModel,
    hint: Seq<char>,
    now: Seq<char>,
    i: int,
)
    requires
        0 <= i < s.sessions.len(),
    ensures
        ({
            let closed = with_session_closed(s, hint, now);
            let seen = with_session_seen(s, hint, now);
            let row = s.sessions[i];
            &&& closed == (StoreModel { sessions: closed.sessions, ..s })
            &&& closed.sessions.len() == s.sessions.len()
            &&& closed.sessions[i] == if row.external_session_hint == Some(hint)
                && row.ended_at is None {
                SessionRowModel { ended_at: Some(now), ..row }
            } else {
                row
            }
            &&& seen == (StoreModel { sessions: seen.sessions, ..s })
            &&& seen.sessions.len() == s.sessions.len()
            &&& seen.sessions[i] == if session_behind(s, hint) == Some(row.id) {
                SessionRowModel { last_seen_at: Some(now), ..row }
            } else {
                row
            }
        }),
{
}

/// An agent is written down for the session behind its harness session, unless it has no name
/// or is known; one that returns is marked where it had not returned. Nothing else changes.
pub proof fn law_an_agent_is_written_down_for_its_session(
    s: StoreModel,
    hint: Seq<char>,
    agent: Seq<char>,
    agent_type: Option<Seq<char>>,
    now: Seq<char>,
    i: int,
)
    ensures
        ({
            let known = exists|k: int| 0 <= k < s.agents.len() && (#[trigger] s.agents[k]).id == agent;
            let after = with_agent(s, hint, agent, agent_type, now);
            let returned = with_agent_returned(s, agent, now);
            &&& after == if blank(agent) || known || session_behind(s, hint) is None {
                s
            } else {
                StoreModel {
                    agents: s.agents.push(
                        AgentRowModel {
                            id: agent,
                            session_id: session_behind(s, hint)->0,
                            agent_type,
                            started_at: now,
                            ended_at: None,
                        },
                    ),
                    ..s
                }
            }
            &&& returned == (StoreModel { agents: returned.agents, ..s })
            &&& returned.agents.len() == s.agents.len()
            &&& 0 <= i < s.agents.len() ==> returned.agents[i] == if !blank(agent)
                && s.agents[i].id == agent && s.agents[i].ended_at is None {
                AgentRowModel { ended_at: Some(now), ..s.agents[i] }
            } else {
                s.agents[i]
            }
        }),
{
    crate::text_laws::law_a_blank_text_is_empty(agent);
    let p = crate::sessions::is_agent(agent);
    if any_row(s.agents, p) {
        let k = choose|k: int| 0 <= k < s.agents.len() && p(#[trigger] s.agents[k]);
        assert(s.agents[k].id == agent);
    }
    if exists|k: int| 0 <= k < s.agents.len() && (#[trigger] s.agents[k]).id == agent {
        let k = choose|k: int| 0 <= k < s.agents.len() && (#[trigger] s.agents[k]).id == agent;
        assert(p(s.agents[k]));
    }
}

/// A notice is due just where none of its kind was given to the session, and is then written
/// down; nothing else changes.
pub proof fn law_a_notice_is_due_once(
    s: StoreModel,
    session: Seq<char>,
    kind: Seq<char>,
    now: Seq<char>,
)
    ensures
        ({
            let (due, after) = notice_step(s, session, kind, now);
            &&& due <==> forall|i: int|
                0 <= i < s.notices.len() ==> !((#[trigger] s.notices[i]).session == session
                    && s.notices[i].kind == kind)
            &&& after == if due {
                StoreModel {
                    notices: s.notices.push(NoticeRowModel { session, kind, sent_at: now }),
                    ..s
                }
            } else {
                s
            }
        }),
{
    let p = crate::sessions::is_notice(session, kind);
    if any_row(s.notices, p) {
        let k = choose|k: int| 0 <= k < s.notices.len() && p(#[trigger] s.notices[k]);
        assert(s.notices[k].session == session && s.notices[k].kind == kind);
    } else {
        assert forall|i: int| 0 <= i < s.notices.len() implies !((
        #[trigger] s.notices[i]).session == session && s.notices[i].kind == kind) by {
            assert(!p(s.notices[i]));
        }
    }
}

// --- observing -------------------------------------------------------------

/// What is observed of a session is saved for its run at the stage the run is at, with the
/// files it changed; a finished run is under review by then. With nothing saved before, it
/// carries no reasoning and the summary that was given.
pub proof fn law_an_observation_is_saved_where_the_run_is(
    s: StoreModel,
    binding: SessionBinding,
    operation: OperationId,
    changed_files: Seq<Seq<char>>,
    fallback: Seq<char>,
)
    requires
        run_snapshot(s, binding.run_id, Some(binding.session_id)) is Ok,
    ensures
        ({
            let run = run_snapshot(s, binding.run_id, Some(binding.session_id))->Ok_0;
            let command = observed(s, binding, operation, changed_files, fallback)->Ok_0;
            &&& observed(s, binding, operation, changed_files, fallback) is Ok
            &&& command.operation_id == operation
            &&& command.run_id == binding.run_id
            &&& command.session_id == binding.session_id
            &&& command.changed_files == changed_files
            &&& command.task_done is None && command.binding is None
            &&& run.stage != WorkflowStage::Completed ==> command.stage == run.stage
            &&& run.stage == WorkflowStage::Completed ==> command.stage == WorkflowStage::Reviewing
            &&& run.latest_checkpoint is None ==> command.origin == CheckpointOrigin::Deterministic
                && command.handoff_summary == fallback && command.decisions.len() == 0
                && command.rejected.len() == 0 && command.completed_steps.len() == 0
                && command.next_steps.len() == 0 && command.verification.len() == 0
                && command.risks.len() == 0
        }),
{
}

/// Reasoning is asked for just where a run has ten edits or more and no checkpoint that was
/// reasoned about, and with how many edits it has.
pub proof fn law_reasoning_is_asked_for_after_ten_edits(s: StoreModel, run: RunId)
    ensures
        ({
            let edits = tally(s.ledger, edit_in(run));
            let explained = exists|i: int|
                0 <= i < s.checkpoints.len() && (#[trigger] s.checkpoints[i]).run_id == run
                    && s.checkpoints[i].origin == CheckpointOrigin::Enriched;
            unexplained(s, run) == if explained || edits < 10 {
                None
            } else {
                Some(edits)
            }
        }),
        forall|ledger: Seq<LedgerRowModel>, edit: LedgerRowModel|
            tally(#[trigger] ledger.push(edit), edit_in(run)) == tally(ledger, edit_in(run)) + (
            if edit.run_id == run {
                1nat
            } else {
                0nat
            }),
{
    let p = reasoned(run);
    if any_row(s.checkpoints, p) {
        let k = choose|k: int| 0 <= k < s.checkpoints.len() && p(#[trigger] s.checkpoints[k]);
        assert(s.checkpoints[k].run_id == run);
    }
    if exists|i: int|
        0 <= i < s.checkpoints.len() && (#[trigger] s.checkpoints[i]).run_id == run
            && s.checkpoints[i].origin == CheckpointOrigin::Enriched {
        let i = choose|i: int|
            0 <= i < s.checkpoints.len() && (#[trigger] s.checkpoints[i]).run_id == run
                && s.checkpoints[i].origin == CheckpointOrigin::Enriched;
        assert(p(s.checkpoints[i]));
    }
    assert forall|ledger: Seq<LedgerRowModel>, edit: LedgerRowModel|
        tally(#[trigger] ledger.push(edit), edit_in(run)) == tally(ledger, edit_in(run)) + (
        if edit.run_id == run {
            1nat
        } else {
            0nat
        }) by {
        assert(ledger.push(edit).drop_last() =~= ledger);
    }
}

/// An identifier that a row has is not given to a second: the request is refused by the column
/// it would stand in, and nothing is written.
pub proof fn law_a_taken_identifier_opens_nothing(
    s: StoreModel,
    command: StartRunCommandModel,
    harness: HarnessKind,
    probe: RepositoryProbeModel,
    ids: NewRun,
    now: Seq<char>,
    k: int,
    j: int,
)
    requires
        unanswered(s, command.operation_id),
    ensures
        ({
            let started = start_step(s, command, None, harness, Some(probe), ids, now);
            let place = resolve_step(s, probe, ids.workspace, ids.repository, now).0;
            &&& command.resume_run_id is Some && is_the_run(s.runs, command.resume_run_id->0, k)
                && s.runs[k].status == RunStatus::Open && 0 <= j < s.sessions.len()
                && s.sessions[j].id == ids.session ==> started == (
                Err::<StartRunResultModel, StoreErrorModel>(
                    StoreErrorModel::Database("UNIQUE constraint failed: "@ + "sessions.id"@),
                ),
                s,
            )
            &&& command.resume_run_id is None && command.workspace_roots.len() > 0 && place is Ok
                && 0 <= j < s.runs.len() && s.runs[j].id == ids.run ==> started == (
                Err::<StartRunResultModel, StoreErrorModel>(
                    StoreErrorModel::Database("UNIQUE constraint failed: "@ + "runs.id"@),
                ),
                s,
            )
        }),
{
    lemma_no_first(s.operations, is_operation(command.operation_id));
    if command.resume_run_id is Some && is_the_run(s.runs, command.resume_run_id->0, k) {
        lemma_the_run(s, command.resume_run_id->0, k);
    }
    let known = resolve_step(s, probe, ids.workspace, ids.repository, now).1;
    assert(known.runs == s.runs);
    if 0 <= j < s.runs.len() {
        assert(known.runs[j] == s.runs[j]);
    }
}

/// A checkpoint under an identifier that a checkpoint has is refused, and nothing is written.
pub proof fn law_a_taken_identifier_saves_nothing(
    s: StoreModel,
    command: CheckpointCommandModel,
    checkpoint: CheckpointId,
    now: Seq<char>,
    until: Seq<char>,
    k: int,
    n: int,
    j: int,
)
    requires
        unanswered(s, command.operation_id),
        is_the_run(s.runs, command.run_id, k),
        s.runs[k].status == RunStatus::Open,
        0 <= n < s.sessions.len() && s.sessions[n].id == command.session_id,
        0 <= j < s.checkpoints.len() && s.checkpoints[j].id == checkpoint,
    ensures
        checkpoint_step(s, command, None, checkpoint, now, until) == (
            Err::<CheckpointResultModel, StoreErrorModel>(
                StoreErrorModel::Database("UNIQUE constraint failed: "@ + "checkpoints.id"@),
            ),
            s,
        ),
{
    lemma_no_first(s.operations, is_operation(command.operation_id));
    lemma_the_run(s, command.run_id, k);
    assert(is_session(command.session_id)(s.sessions[n]));
}

/// A run is shown as it stands, with what it is bound to where it is bound to a change or a task
/// or both, and nothing where it is bound to neither.
pub proof fn law_a_run_is_shown_as_it_stands(
    s: StoreModel,
    run: RunId,
    session: Option<SessionId>,
    k: int,
)
    requires
        is_the_run(s.runs, run, k),
        run_snapshot(s, run, session) is Ok,
    ensures
        ({
            let row = s.runs[k];
            let shown = run_snapshot(s, run, session)->Ok_0;
            &&& shown.run_id == run
            &&& shown.workspace_id == row.workspace_id
            &&& shown.task == row.task
            &&& shown.status == row.status
            &&& shown.stage == row.stage
            &&& row.spec_change_id is Some ==> shown.spec is Some
            &&& row.current_task is Some ==> shown.spec is Some
            &&& row.spec_change_id is None && row.current_task is None ==> shown.spec is None
            &&& shown.spec matches Some(spec) ==> spec.change_id == row.spec_change_id
                && spec.current_task == row.current_task
            &&& shown.latest_checkpoint is None <==> shown_row(s.checkpoints, run, session) is None
        }),
{
    lemma_the_run(s, run, k);
}

/// A checkpoint that carries a binding binds its run as writing the binding by itself does after
/// the same checkpoint without it.
pub proof fn law_a_checkpoint_carries_its_binding(
    s: StoreModel,
    command: CheckpointCommandModel,
    binding: SpecBindingModel,
    checkpoint: CheckpointId,
    now: Seq<char>,
    until: Seq<char>,
)
    requires
        command.binding == Some(binding),
        command.task_done is None,
        unanswered(s, command.operation_id),
        checkpoint_step(s, command, None, checkpoint, now, until).0 is Ok,
    ensures
        ({
            let plain = CheckpointCommandModel { binding: None, ..command };
            let (answer, after) = checkpoint_step(s, command, None, checkpoint, now, until);
            let (saved, before) = checkpoint_step(s, plain, None, checkpoint, now, until);
            let bound = write_binding_step(before, command.run_id, binding, now, until);
            &&& answer == saved
            &&& bound is Ok
            &&& after.runs == bound->Ok_0.runs
            &&& after.tasks == bound->Ok_0.tasks
            &&& after.checkpoints.len() == s.checkpoints.len() + 1
            &&& after.checkpoints.last().payload == command
        }),
{
    lemma_no_first(s.operations, is_operation(command.operation_id));
    let plain = CheckpointCommandModel { binding: None, ..command };
    let before = checkpoint_step(s, plain, None, checkpoint, now, until).1;
    lemma_first_is_first(s.runs, is_run(command.run_id));
    let k = crate::rows::first_index(s.runs, is_run(command.run_id))->0;
    assert(is_run(command.run_id)(before.runs[k]));
}

/// A session that would take the identifier of a session, or open a run under that of a run, is
/// not bound, and nothing is written.
pub proof fn law_a_taken_identifier_binds_nothing(
    s: StoreModel,
    hint: Seq<char>,
    probe: RepositoryProbeModel,
    task: Seq<char>,
    harness: HarnessKind,
    ids: NewRun,
    now: Seq<char>,
    j: int,
)
    requires
        bound_to(s, hint) is None,
        resolve_step(s, probe, ids.workspace, ids.repository, now).0 is Ok,
    ensures
        ({
            let bound = bind_session_step(s, hint, probe, task, harness, ids, now);
            let attached = attach_step(s, hint, probe, harness, ids, now);
            let (place, known) = resolve_step(s, probe, ids.workspace, ids.repository, now);
            let flight = run_in_flight(known, place->Ok_0.workspace_id);
            let session_taken = 0 <= j < s.sessions.len() && s.sessions[j].id == ids.session;
            let run_taken = 0 <= j < s.runs.len() && s.runs[j].id == ids.run;
            &&& flight is Some && session_taken ==> bound == (
                Err::<SessionBinding, StoreErrorModel>(
                    StoreErrorModel::Database("UNIQUE constraint failed: "@ + "sessions.id"@),
                ),
                s,
            ) && attached == (
                Err::<Option<SessionBinding>, StoreErrorModel>(
                    StoreErrorModel::Database("UNIQUE constraint failed: "@ + "sessions.id"@),
                ),
                s,
            )
            &&& flight is None && run_taken ==> bound == (
                Err::<SessionBinding, StoreErrorModel>(
                    StoreErrorModel::Database("UNIQUE constraint failed: "@ + "runs.id"@),
                ),
                s,
            )
        }),
{
    let known = resolve_step(s, probe, ids.workspace, ids.repository, now).1;
    assert(known.runs == s.runs && known.sessions == s.sessions);
    if 0 <= j < s.runs.len() {
        assert(known.runs[j] == s.runs[j]);
    }
    if 0 <= j < s.sessions.len() {
        assert(known.sessions[j] == s.sessions[j]);
    }
}

/// Adopting without a directory to look in starts a run, or fails to, as starting does.
pub proof fn law_adopting_nowhere_is_starting(
    s: StoreModel,
    command: StartRunCommandModel,
    opening: Option<DomainErrorModel>,
    joining_refusal: Option<DomainErrorModel>,
    harness: HarnessKind,
    probe: Option<RepositoryProbeModel>,
    looking: NewRun,
    ids: NewRun,
    now: Seq<char>,
)
    requires
        probe is None || command.workspace_roots.len() == 0,
    ensures
        adopt_step(s, command, opening, joining_refusal, harness, probe, looking, ids, now)
            == start_step(s, command, opening, harness, probe, ids, now),
{
}

} // verus!
