//! Every request that writes is answered once.
//!
//! A hook that retries after a crash cannot duplicate state: sent again under its
//! operation, a request gets the answer it got and writes nothing, whatever time it is by
//! then and whatever identifiers would have been used; under an operation that was used
//! for something else it is refused and writes nothing.

use vstd::prelude::*;

use crate::domain::{
    CheckpointCommandModel, CheckpointResultModel, FinishRunCommandModel, FinishRunResultModel,
    ProposeCommandModel, ProposeResultModel, RememberCommandModel, RequestModel,
    StartRunCommandModel, StartRunResultModel,
};
use crate::error::{DomainErrorModel, StoreErrorModel};
use crate::facts::{remember_answer, remember_reading, remember_step, with_fact, FactContextModel};
use crate::git::RepositoryProbeModel;
use crate::ids::{ChangeId, CheckpointId, FactId, OperationId};
use crate::operations::{law_replay_gives_the_recorded_answer, recall};
use crate::sdd::{propose_answer, propose_body, propose_reading, propose_step};
use crate::states::HarnessKind;
use crate::store::{
    checkpoint_answer, checkpoint_body, checkpoint_reading, checkpoint_step, finish_answer,
    finish_body, finish_reading, finish_step, start_answer, start_body, start_reading, start_step,
    NewRun,
};
use crate::tables::StoreModel;

verus! {

/// A run that was started under an operation is not started again.
pub proof fn law_starting_a_run_again_changes_nothing(
    s: StoreModel,
    command: StartRunCommandModel,
    harness: HarnessKind,
    probe: Option<RepositoryProbeModel>,
    ids: NewRun,
    now: Seq<char>,
    harness_later: HarnessKind,
    probe_later: Option<RepositoryProbeModel>,
    ids_later: NewRun,
    later: Seq<char>,
)
    requires
        start_step(s, command, None, harness, probe, ids, now).0 is Ok,
    ensures
        ({
            let first = start_step(s, command, None, harness, probe, ids, now);
            start_step(first.1, command, None, harness_later, probe_later, ids_later, later)
                == first
        }),
{
    let first = start_step(s, command, None, harness, probe, ids, now);
    law_replay_gives_the_recorded_answer(
        s,
        command.operation_id,
        RequestModel::StartRun(command),
        start_body(s, command, harness, probe, ids, now),
        start_body(first.1, command, harness_later, probe_later, ids_later, later),
        start_answer(),
        start_reading(),
        now,
        later,
    );
}

/// A checkpoint that was saved under an operation is not saved again.
pub proof fn law_saving_a_checkpoint_again_changes_nothing(
    s: StoreModel,
    command: CheckpointCommandModel,
    checkpoint: CheckpointId,
    now: Seq<char>,
    until: Seq<char>,
    checkpoint_later: CheckpointId,
    later: Seq<char>,
    until_later: Seq<char>,
)
    requires
        checkpoint_step(s, command, None, checkpoint, now, until).0 is Ok,
    ensures
        ({
            let first = checkpoint_step(s, command, None, checkpoint, now, until);
            checkpoint_step(first.1, command, None, checkpoint_later, later, until_later) == first
        }),
{
    let first = checkpoint_step(s, command, None, checkpoint, now, until);
    law_replay_gives_the_recorded_answer(
        s,
        command.operation_id,
        RequestModel::Checkpoint(command),
        checkpoint_body(s, command, checkpoint, now, until),
        checkpoint_body(first.1, command, checkpoint_later, later, until_later),
        checkpoint_answer(),
        checkpoint_reading(),
        now,
        later,
    );
}

/// A run that was finished under an operation is not finished again, and the answer is
/// not that it is closed.
pub proof fn law_finishing_a_run_again_changes_nothing(
    s: StoreModel,
    command: FinishRunCommandModel,
    now: Seq<char>,
    later: Seq<char>,
)
    requires
        finish_step(s, command, None, now).0 is Ok,
    ensures
        ({
            let first = finish_step(s, command, None, now);
            finish_step(first.1, command, None, later) == first
        }),
{
    let first = finish_step(s, command, None, now);
    law_replay_gives_the_recorded_answer(
        s,
        command.operation_id,
        RequestModel::Finish(command),
        finish_body(s, command, now),
        finish_body(first.1, command, later),
        finish_answer(),
        finish_reading(),
        now,
        later,
    );
}

/// A fact that was written under an operation is not written again.
pub proof fn law_remembering_again_changes_nothing(
    s: StoreModel,
    command: RememberCommandModel,
    context: FactContextModel,
    id: FactId,
    now: Seq<char>,
    context_later: FactContextModel,
    id_later: FactId,
    later: Seq<char>,
)
    requires
        remember_step(s, command, None, context, id, now).0 is Ok,
    ensures
        ({
            let first = remember_step(s, command, None, context, id, now);
            remember_step(first.1, command, None, context_later, id_later, later) == first
        }),
{
    let first = remember_step(s, command, None, context, id, now);
    law_replay_gives_the_recorded_answer(
        s,
        command.operation_id,
        RequestModel::Remember(command),
        Ok((id, with_fact(s, command, context, id, now))),
        Ok((id_later, with_fact(first.1, command, context_later, id_later, later))),
        remember_answer(),
        remember_reading(),
        now,
        later,
    );
}

/// A change that was proposed under an operation is neither opened nor rewritten again.
pub proof fn law_proposing_again_changes_nothing(
    s: StoreModel,
    command: ProposeCommandModel,
    context: FactContextModel,
    id: ChangeId,
    now: Seq<char>,
    context_later: FactContextModel,
    id_later: ChangeId,
    later: Seq<char>,
)
    requires
        propose_step(s, command, None, context, id, now).0 is Ok,
        context_later.workspace_id is Some,
    ensures
        ({
            let first = propose_step(s, command, None, context, id, now);
            propose_step(first.1, command, None, context_later, id_later, later) == first
        }),
{
    let first = propose_step(s, command, None, context, id, now);
    law_replay_gives_the_recorded_answer(
        s,
        command.operation_id,
        RequestModel::Propose(command),
        propose_body(s, command, context.workspace_id->0, context.namespace, id, now),
        propose_body(
            first.1,
            command,
            context_later.workspace_id->0,
            context_later.namespace,
            id_later,
            later,
        ),
        propose_answer(),
        propose_reading(),
        now,
        later,
    );
}

/// Having been used for another request.
pub open spec fn used_otherwise(s: StoreModel, id: OperationId, request: RequestModel) -> bool {
    recall(s, id, request) is Conflict
}

/// An operation that was used for another request is refused to a run that is started, and
/// nothing is written.
pub proof fn law_starting_under_a_used_operation_is_refused(
    s: StoreModel,
    command: StartRunCommandModel,
    harness: HarnessKind,
    probe: Option<RepositoryProbeModel>,
    ids: NewRun,
    now: Seq<char>,
)
    requires
        used_otherwise(s, command.operation_id, RequestModel::StartRun(command)),
        command.resume_run_id is Some || command.workspace_roots.len() > 0,
    ensures
        start_step(s, command, None, harness, probe, ids, now) == (
            Err::<StartRunResultModel, StoreErrorModel>(
                StoreErrorModel::IdempotencyConflict(command.operation_id),
            ),
            s,
        ),
{
}

/// An operation that was used for another request is refused to a checkpoint, and nothing
/// is written.
pub proof fn law_saving_under_a_used_operation_is_refused(
    s: StoreModel,
    command: CheckpointCommandModel,
    checkpoint: CheckpointId,
    now: Seq<char>,
    until: Seq<char>,
)
    requires
        used_otherwise(s, command.operation_id, RequestModel::Checkpoint(command)),
    ensures
        checkpoint_step(s, command, None, checkpoint, now, until) == (
            Err::<CheckpointResultModel, StoreErrorModel>(
                StoreErrorModel::IdempotencyConflict(command.operation_id),
            ),
            s,
        ),
{
}

/// An operation that was used for another request is refused to a run that is finished,
/// and nothing is written.
pub proof fn law_finishing_under_a_used_operation_is_refused(
    s: StoreModel,
    command: FinishRunCommandModel,
    now: Seq<char>,
)
    requires
        used_otherwise(s, command.operation_id, RequestModel::Finish(command)),
    ensures
        finish_step(s, command, None, now) == (
            Err::<FinishRunResultModel, StoreErrorModel>(
                StoreErrorModel::IdempotencyConflict(command.operation_id),
            ),
            s,
        ),
{
}

/// An operation that was used for another request is refused to a fact, and nothing is
/// written.
pub proof fn law_remembering_under_a_used_operation_is_refused(
    s: StoreModel,
    command: RememberCommandModel,
    context: FactContextModel,
    id: FactId,
    now: Seq<char>,
)
    requires
        used_otherwise(s, command.operation_id, RequestModel::Remember(command)),
    ensures
        remember_step(s, command, None, context, id, now) == (
            Err::<FactId, StoreErrorModel>(
                StoreErrorModel::IdempotencyConflict(command.operation_id),
            ),
            s,
        ),
{
}

/// An operation that was used for another request is refused to a proposal, and nothing is
/// written.
pub proof fn law_proposing_under_a_used_operation_is_refused(
    s: StoreModel,
    command: ProposeCommandModel,
    context: FactContextModel,
    id: ChangeId,
    now: Seq<char>,
)
    requires
        used_otherwise(s, command.operation_id, RequestModel::Propose(command)),
        context.workspace_id is Some,
    ensures
        propose_step(s, command, None, context, id, now) == (
            Err::<ProposeResultModel, StoreErrorModel>(
                StoreErrorModel::IdempotencyConflict(command.operation_id),
            ),
            s,
        ),
{
}

/// Whatever a request is refused for, a refused request writes nothing.
pub proof fn law_a_refused_request_writes_nothing(
    s: StoreModel,
    start: StartRunCommandModel,
    save: CheckpointCommandModel,
    finish: FinishRunCommandModel,
    fact: RememberCommandModel,
    proposal: ProposeCommandModel,
    refusal: Option<DomainErrorModel>,
    harness: HarnessKind,
    probe: Option<RepositoryProbeModel>,
    context: FactContextModel,
    ids: NewRun,
    checkpoint: CheckpointId,
    fact_id: FactId,
    change_id: ChangeId,
    now: Seq<char>,
    until: Seq<char>,
)
    ensures
        ({
            let r = start_step(s, start, refusal, harness, probe, ids, now);
            r.0 is Err ==> r.1 == s
        }),
        ({
            let r = checkpoint_step(s, save, refusal, checkpoint, now, until);
            r.0 is Err ==> r.1 == s
        }),
        ({
            let r = finish_step(s, finish, refusal, now);
            r.0 is Err ==> r.1 == s
        }),
        ({
            let r = remember_step(s, fact, refusal, context, fact_id, now);
            r.0 is Err ==> r.1 == s
        }),
        ({
            let r = propose_step(s, proposal, refusal, context, change_id, now);
            r.0 is Err ==> r.1 == s
        }),
{
}

/// An operation that has been answered is used: sent again with any other request it is
/// refused.
pub proof fn law_an_answered_operation_is_used(
    s: StoreModel,
    id: OperationId,
    request: RequestModel,
    other: RequestModel,
)
    requires
        recall(s, id, request) is Answered,
        other != request,
    ensures
        used_otherwise(s, id, other),
{
}

} // verus!
