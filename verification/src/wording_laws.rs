//! What refusals and states are called, and what refusals say.

use vstd::prelude::*;

use crate::deps::{status_of, status_text, DependencyStatus};
use crate::error::{
    declared_words, open_words, unexecuted_words, DomainErrorModel, StoreErrorModel,
};
use crate::outside::uuid_text;
use crate::states::{
    Cardinality, ChangeStatus, CheckpointOrigin, Classification, FactKind, FactScope, FactStatus,
    HarnessKind, JobStatus, RelationKind, RepositoryRole, RunStatus, TaskStatus, WireName,
    WorkflowStage,
};
use crate::text::{decimal, in_quotes, joined, occurs_in, stands_at};

verus! {

// --- names -----------------------------------------------------------------

/// Every refusal is told by a name of its own, which callers go by.
pub proof fn law_a_refusal_has_its_name(e: StoreErrorModel)
    ensures
        e is Database ==> e.code() == "database_error"@,
        e is Serialization ==> e.code() == "serialization_error"@,
        e is RunNotFound ==> e.code() == "run_not_found"@,
        e is SessionNotFound ==> e.code() == "session_not_found"@,
        e is RunClosed ==> e.code() == "run_closed"@,
        e is IdempotencyConflict ==> e.code() == "idempotency_conflict"@,
        e is UnsupportedSchema ==> e.code() == "unsupported_schema"@,
        e is NoOpenRun ==> e.code() == "no_open_run"@,
        e is DependencyNotFound ==> e.code() == "dependency_not_found"@,
        e is SlugTaken ==> e.code() == "slug_taken"@,
        e is CapabilityDeltasStranded ==> e.code() == "capability_deltas_stranded"@,
        e is CapabilityNotProposed ==> e.code() == "capability_not_proposed"@,
        e is NoWorkspace ==> e.code() == "no_workspace"@,
        e is ChangeNotFound ==> e.code() == "change_not_found"@,
        e is ChangeClosed ==> e.code() == "change_closed"@,
        e is CapabilityPurposeRequired ==> e.code() == "capability_purpose_required"@,
        e is CapabilityPurposeRedundant ==> e.code() == "capability_purpose_redundant"@,
        e is RequirementNotFound ==> e.code() == "requirement_not_found"@,
        e is RequirementNameNotLive ==> e.code() == "requirement_name_not_live"@,
        e is DeltaAlreadyProposed ==> e.code() == "delta_already_proposed"@,
        e is ChangeNotSpecified ==> e.code() == "change_not_specified"@,
        e is RequirementsUncovered ==> e.code() == "requirements_uncovered"@,
        e is RequirementsUnimplemented ==> e.code() == "requirements_unimplemented"@,
        e is ArtifactsUnproduced ==> e.code() == "artifacts_unproduced"@,
        e is PlanIsCyclic ==> e.code() == "plan_is_cyclic"@,
        e is ChangeNotExecuted ==> e.code() == "change_not_executed"@,
        e is NothingToArchive ==> e.code() == "nothing_to_archive"@,
        e is RunNotBoundToChange ==> e.code() == "run_not_bound"@,
        e is ChangeSlugAmbiguous ==> e.code() == "change_slug_ambiguous"@,
        e is ChangeSlugNotFound ==> e.code() == "change_slug_not_found"@,
        e is TaskNotFound ==> e.code() == "task_not_found"@,
        e is VerifyCommandMismatch ==> e.code() == "verify_command_mismatch"@,
        e is FileHeldByAnotherTask ==> e.code() == "file_held_by_another_task"@,
        e matches StoreErrorModel::Domain(inner) ==> e.code() == inner.code(),
        e matches StoreErrorModel::Domain(inner) ==> e.message() == inner.message(),
{
}

/// What the domain refuses has a name as well, and is handed on under it.
pub proof fn law_a_refused_command_has_its_name(code: Seq<char>, message: Seq<char>)
    ensures
        DomainErrorModel::MissingWorkspaceRoot.code() == "missing_workspace_root"@,
        DomainErrorModel::VerifiedWithoutEvidence.code() == "verified_without_evidence"@,
        (DomainErrorModel::Rejected { code, message }).code() == code,
        (DomainErrorModel::Rejected { code, message }).message() == message,
{
}

/// How a harness kind is written.
pub proof fn law_a_harness_kind_is_written_by_name(state: HarnessKind)
    ensures
        state.wire() == match state {
            HarnessKind::ClaudeCode => "claude_code"@,
            HarnessKind::Codex => "codex"@,
        },
{
}

/// How a workflow stage is written.
pub proof fn law_a_workflow_stage_is_written_by_name(state: WorkflowStage)
    ensures
        state.wire() == match state {
            WorkflowStage::Discovering => "discovering"@,
            WorkflowStage::Executing => "executing"@,
            WorkflowStage::Reviewing => "reviewing"@,
            WorkflowStage::Completed => "completed"@,
        },
{
}

/// How a checkpoint origin is written.
pub proof fn law_a_checkpoint_origin_is_written_by_name(state: CheckpointOrigin)
    ensures
        state.wire() == match state {
            CheckpointOrigin::Deterministic => "deterministic"@,
            CheckpointOrigin::Enriched => "enriched"@,
        },
{
}

/// How a run status is written.
pub proof fn law_a_run_status_is_written_by_name(state: RunStatus)
    ensures
        state.wire() == match state {
            RunStatus::Open => "open"@,
            RunStatus::Completed => "completed"@,
        },
{
}

/// How a fact kind is written.
pub proof fn law_a_fact_kind_is_written_by_name(state: FactKind)
    ensures
        state.wire() == match state {
            FactKind::Project => "project"@,
            FactKind::Feedback => "feedback"@,
        },
{
}

/// How a fact scope is written.
pub proof fn law_a_fact_scope_is_written_by_name(state: FactScope)
    ensures
        state.wire() == match state {
            FactScope::Run => "run"@,
            FactScope::Repository => "repository"@,
            FactScope::Workspace => "workspace"@,
            FactScope::User => "user"@,
        },
{
}

/// How a cardinality is written.
pub proof fn law_a_cardinality_is_written_by_name(state: Cardinality)
    ensures
        state.wire() == match state {
            Cardinality::Single => "single"@,
            Cardinality::Many => "set"@,
        },
{
}

/// How a fact status is written.
pub proof fn law_a_fact_status_is_written_by_name(state: FactStatus)
    ensures
        state.wire() == match state {
            FactStatus::Observed => "observed"@,
            FactStatus::Verified => "verified"@,
            FactStatus::Contradicted => "contradicted"@,
            FactStatus::Revoked => "revoked"@,
        },
{
}

/// How a relation kind is written.
pub proof fn law_a_relation_kind_is_written_by_name(state: RelationKind)
    ensures
        state.wire() == match state {
            RelationKind::Related => "related"@,
            RelationKind::Supersedes => "supersedes"@,
        },
{
}

/// How a repository role is written.
pub proof fn law_a_repository_role_is_written_by_name(state: RepositoryRole)
    ensures
        state.wire() == match state {
            RepositoryRole::Primary => "primary"@,
            RepositoryRole::Infrastructure => "infrastructure"@,
        },
{
}

/// How a classification is written.
pub proof fn law_a_classification_is_written_by_name(state: Classification)
    ensures
        state.wire() == match state {
            Classification::Bounded => "bounded"@,
            Classification::Architectural => "architectural"@,
        },
{
}

/// How a change status is written.
pub proof fn law_a_change_status_is_written_by_name(state: ChangeStatus)
    ensures
        state.wire() == match state {
            ChangeStatus::Drafting => "drafting"@,
            ChangeStatus::Specified => "specified"@,
            ChangeStatus::Planned => "planned"@,
            ChangeStatus::Executing => "executing"@,
            ChangeStatus::Ready => "ready"@,
            ChangeStatus::Archived => "archived"@,
            ChangeStatus::Abandoned => "abandoned"@,
        },
{
}

/// How a task status is written.
pub proof fn law_a_task_status_is_written_by_name(state: TaskStatus)
    ensures
        state.wire() == match state {
            TaskStatus::Pending => "pending"@,
            TaskStatus::Running => "running"@,
            TaskStatus::Done => "done"@,
            TaskStatus::Skipped => "skipped"@,
        },
{
}

/// How a job status is written.
pub proof fn law_a_job_status_is_written_by_name(state: JobStatus)
    ensures
        state.wire() == match state {
            JobStatus::Pending => "pending"@,
            JobStatus::Running => "running"@,
            JobStatus::Done => "done"@,
            JobStatus::Failed => "failed"@,
        },
{
}

/// A dependency is asked for until it says that it is there or that it failed.
pub proof fn law_a_dependency_is_asked_for_until_it_is_there(text: Seq<char>)
    ensures
        text == "present"@ ==> status_of(text) == DependencyStatus::Present,
        text == "failed"@ ==> status_of(text) == DependencyStatus::Failed,
        text != "present"@ && text != "failed"@ ==> status_of(text) == DependencyStatus::Declared,
        status_text(DependencyStatus::Declared) == "declared"@,
        status_text(DependencyStatus::Present) == "present"@,
        status_text(DependencyStatus::Failed) == "failed"@,
{
    reveal_strlit("present");
    reveal_strlit("failed");
    assert("present"@.len() != "failed"@.len());
}

// --- words -----------------------------------------------------------------

proof fn lemma_occurs(front: Seq<char>, part: Seq<char>, back: Seq<char>)
    ensures
        occurs_in(part, front + part + back),
{
    let s = front + part + back;
    let at = front.len() as int;
    assert(s.subrange(at, at + part.len()) =~= part);
    assert(stands_at(s, part, at));
}

proof fn lemma_both_occur(
    front: Seq<char>,
    one: Seq<char>,
    between: Seq<char>,
    other: Seq<char>,
    back: Seq<char>,
)
    ensures
        occurs_in(one, front + one + between + other + back),
        occurs_in(other, front + one + between + other + back),
{
    let s = front + one + between + other + back;
    lemma_occurs(front, one, between + other + back);
    assert(s =~= front + one + (between + other + back));
    lemma_occurs(front + one + between, other, back);
}

/// A refusal says what it is about: whose identifier it was, which slug, path, number or
/// command.
#[verifier::rlimit(40)]
pub proof fn law_a_refusal_says_what_it_is_about(e: StoreErrorModel)
    ensures
        e matches StoreErrorModel::Database(reason) ==> occurs_in(reason, e.message()),
        e matches StoreErrorModel::Serialization(reason) ==> occurs_in(reason, e.message()),
        e matches StoreErrorModel::RunNotFound(run) ==> occurs_in(uuid_text(run.0), e.message()),
        e matches StoreErrorModel::SessionNotFound(session) ==> occurs_in(
            uuid_text(session.0),
            e.message(),
        ),
        e matches StoreErrorModel::RunClosed(run) ==> occurs_in(uuid_text(run.0), e.message()),
        e matches StoreErrorModel::IdempotencyConflict(operation) ==> occurs_in(
            uuid_text(operation.0),
            e.message(),
        ),
        e matches StoreErrorModel::UnsupportedSchema(version) ==> occurs_in(
            decimal(version as int),
            e.message(),
        ),
        e matches StoreErrorModel::DependencyNotFound(dependency) ==> occurs_in(
            uuid_text(dependency.0),
            e.message(),
        ),
        e matches StoreErrorModel::SlugTaken(slug) ==> occurs_in(in_quotes(slug), e.message()),
        e matches StoreErrorModel::CapabilityDeltasStranded(dropped) ==> occurs_in(
            joined(dropped, ", "@),
            e.message(),
        ),
        e matches StoreErrorModel::CapabilityNotProposed { capability_path, declared } ==> occurs_in(
            in_quotes(capability_path),
            e.message(),
        ),
        e matches StoreErrorModel::ChangeNotFound(change) ==> occurs_in(
            uuid_text(change.0),
            e.message(),
        ),
        e matches StoreErrorModel::ChangeClosed(change) ==> occurs_in(
            uuid_text(change.0),
            e.message(),
        ),
        e matches StoreErrorModel::CapabilityPurposeRequired(path) ==> occurs_in(
            in_quotes(path),
            e.message(),
        ),
        e matches StoreErrorModel::CapabilityPurposeRedundant(path) ==> occurs_in(
            in_quotes(path),
            e.message(),
        ),
        e matches StoreErrorModel::RequirementNotFound { requirement_id, capability_path } ==> {
            &&& occurs_in(requirement_id, e.message())
            &&& occurs_in(in_quotes(capability_path), e.message())
        },
        e matches StoreErrorModel::RequirementNameNotLive { name, capability_path, live } ==> {
            &&& occurs_in(in_quotes(capability_path), e.message())
            &&& occurs_in(in_quotes(name), e.message())
            &&& occurs_in(joined(live, ", "@), e.message())
        },
        e matches StoreErrorModel::DeltaAlreadyProposed { requirement_name, capability_path } ==> {
            &&& occurs_in(in_quotes(requirement_name), e.message())
            &&& occurs_in(in_quotes(capability_path), e.message())
        },
        e matches StoreErrorModel::ChangeNotSpecified { change, status } ==> {
            &&& occurs_in(uuid_text(change.0), e.message())
            &&& occurs_in(in_quotes(status), e.message())
        },
        e matches StoreErrorModel::RequirementsUncovered(names) ==> occurs_in(
            joined(names, ", "@),
            e.message(),
        ),
        e matches StoreErrorModel::RequirementsUnimplemented(names) ==> occurs_in(
            joined(names, ", "@),
            e.message(),
        ),
        e matches StoreErrorModel::ArtifactsUnproduced(names) ==> occurs_in(
            joined(names, ", "@),
            e.message(),
        ),
        e matches StoreErrorModel::PlanIsCyclic(tasks) ==> occurs_in(
            joined(tasks, ", "@),
            e.message(),
        ),
        e matches StoreErrorModel::ChangeNotExecuted { change, tasks } ==> occurs_in(
            uuid_text(change.0),
            e.message(),
        ),
        e matches StoreErrorModel::NothingToArchive(change) ==> occurs_in(
            uuid_text(change.0),
            e.message(),
        ),
        e matches StoreErrorModel::RunNotBoundToChange { run } ==> occurs_in(
            uuid_text(run.0),
            e.message(),
        ),
        e matches StoreErrorModel::ChangeSlugAmbiguous { slug, namespaces } ==> {
            &&& occurs_in(in_quotes(slug), e.message())
            &&& occurs_in(joined(namespaces, ", "@), e.message())
        },
        e matches StoreErrorModel::ChangeSlugNotFound(slug) ==> occurs_in(
            in_quotes(slug),
            e.message(),
        ),
        e matches StoreErrorModel::TaskNotFound { slug, number, open } ==> {
            &&& occurs_in(in_quotes(slug), e.message())
            &&& occurs_in(in_quotes(number), e.message())
        },
        e matches StoreErrorModel::VerifyCommandMismatch { number, expected } ==> {
            &&& occurs_in(number, e.message())
            &&& occurs_in(in_quotes(expected), e.message())
        },
        e matches StoreErrorModel::FileHeldByAnotherTask { number, path, holder } ==> {
            &&& occurs_in(number, e.message())
            &&& occurs_in(path, e.message())
            &&& occurs_in(holder, e.message())
        },
{
    match e {
        StoreErrorModel::Database(reason) => {
            lemma_occurs("database error: "@, reason, Seq::empty());
            assert(e.message() =~= "database error: "@ + reason + Seq::<char>::empty());
        },
        StoreErrorModel::Serialization(reason) => {
            lemma_occurs("serialization error: "@, reason, Seq::empty());
            assert(e.message() =~= "serialization error: "@ + reason + Seq::<char>::empty());
        },
        StoreErrorModel::RunNotFound(run) => {
            lemma_occurs("run "@, uuid_text(run.0), " does not exist"@);
        },
        StoreErrorModel::SessionNotFound(session) => {
            lemma_occurs("session "@, uuid_text(session.0), " does not exist"@);
        },
        StoreErrorModel::RunClosed(run) => {
            lemma_occurs("run "@, uuid_text(run.0), " is already completed"@);
        },
        StoreErrorModel::IdempotencyConflict(operation) => {
            lemma_occurs(
                "operation "@,
                uuid_text(operation.0),
                " was already used for a different request"@,
            );
        },
        StoreErrorModel::UnsupportedSchema(version) => {
            lemma_occurs(
                "database schema version "@,
                decimal(version as int),
                " is newer than this build understands"@,
            );
        },
        StoreErrorModel::DependencyNotFound(dependency) => {
            lemma_occurs("dependency "@, uuid_text(dependency.0), " does not exist"@);
        },
        StoreErrorModel::SlugTaken(slug) => {
            lemma_occurs(
                "slug "@,
                in_quotes(slug),
                " belongs to a change that is already past its proposal; a proposal is rewritten only while the change is drafting or specified"@,
            );
        },
        StoreErrorModel::CapabilityDeltasStranded(dropped) => {
            lemma_occurs(
                "this change already proposes deltas for capabilities this proposal drops: "@,
                joined(dropped, ", "@),
                "; keep them in capabilities, since a delta once written cannot be withdrawn"@,
            );
        },
        StoreErrorModel::CapabilityNotProposed { capability_path, declared } => {
            lemma_occurs(
                "capability "@,
                in_quotes(capability_path),
                " is not one this change proposed; "@ + declared_words(declared),
            );
            assert(e.message() =~= "capability "@ + in_quotes(capability_path)
                + (" is not one this change proposed; "@ + declared_words(declared)));
        },
        StoreErrorModel::ChangeNotFound(change) => {
            lemma_occurs("change "@, uuid_text(change.0), " does not exist in this workspace"@);
        },
        StoreErrorModel::ChangeClosed(change) => {
            lemma_occurs(
                "change "@,
                uuid_text(change.0),
                " is archived or abandoned and takes no further specs"@,
            );
        },
        StoreErrorModel::CapabilityPurposeRequired(path) => {
            lemma_occurs("capability "@, in_quotes(path), " is new and needs a purpose"@);
        },
        StoreErrorModel::CapabilityPurposeRedundant(path) => {
            lemma_occurs(
                "capability "@,
                in_quotes(path),
                " already has a purpose; remove it from this delta or edit the capability"@,
            );
        },
        StoreErrorModel::RequirementNotFound { requirement_id, capability_path } => {
            lemma_both_occur(
                "requirement "@,
                requirement_id,
                " is not a live requirement of capability "@,
                in_quotes(capability_path),
                Seq::empty(),
            );
            assert(e.message() =~= "requirement "@ + requirement_id
                + " is not a live requirement of capability "@ + in_quotes(capability_path)
                + Seq::<char>::empty());
        },
        StoreErrorModel::RequirementNameNotLive { name, capability_path, live } => {
            lemma_both_occur(
                "no live requirement of capability "@,
                in_quotes(capability_path),
                " is called "@,
                in_quotes(name),
                "; it holds: "@ + joined(live, ", "@),
            );
            assert(e.message() =~= "no live requirement of capability "@
                + in_quotes(capability_path) + " is called "@ + in_quotes(name)
                + ("; it holds: "@ + joined(live, ", "@)));
            lemma_occurs(
                "no live requirement of capability "@ + in_quotes(capability_path)
                    + " is called "@ + in_quotes(name) + "; it holds: "@,
                joined(live, ", "@),
                Seq::empty(),
            );
            assert(e.message() =~= "no live requirement of capability "@
                + in_quotes(capability_path) + " is called "@ + in_quotes(name) + "; it holds: "@
                + joined(live, ", "@) + Seq::empty());
        },
        StoreErrorModel::DeltaAlreadyProposed { requirement_name, capability_path } => {
            lemma_both_occur(
                "this change already proposes a requirement named "@,
                in_quotes(requirement_name),
                " for capability "@,
                in_quotes(capability_path),
                Seq::empty(),
            );
            assert(e.message() =~= "this change already proposes a requirement named "@
                + in_quotes(requirement_name) + " for capability "@ + in_quotes(capability_path)
                + Seq::<char>::empty());
        },
        StoreErrorModel::ChangeNotSpecified { change, status } => {
            lemma_both_occur(
                "change "@,
                uuid_text(change.0),
                " is "@,
                in_quotes(status),
                "; a plan is written from a specified change, or from a drafting one proposed with skip_specs"@,
            );
        },
        StoreErrorModel::RequirementsUncovered(names) => {
            lemma_occurs(
                "no task covers these requirements: "@,
                joined(names, ", "@),
                "; add a task for each before planning"@,
            );
        },
        StoreErrorModel::RequirementsUnimplemented(names) => {
            lemma_occurs(
                "no finished task covers these requirements: "@,
                joined(names, ", "@),
                "; close the task covering each, or plan one, before archiving"@,
            );
        },
        StoreErrorModel::ArtifactsUnproduced(names) => {
            lemma_occurs(
                "these consumed artifacts are produced by no task in the plan: "@,
                joined(names, ", "@),
                "; produce each, or correct the name to match the task that does"@,
            );
        },
        StoreErrorModel::PlanIsCyclic(tasks) => {
            lemma_occurs(
                "these tasks depend on each other in a cycle: "@,
                joined(tasks, ", "@),
                "; no order can satisfy them, so one must stop consuming what a later task produces"@,
            );
        },
        StoreErrorModel::ChangeNotExecuted { change, tasks } => {
            lemma_occurs(
                "change "@,
                uuid_text(change.0),
                " is not executed: "@ + unexecuted_words(tasks),
            );
            assert(e.message() =~= "change "@ + uuid_text(change.0)
                + (" is not executed: "@ + unexecuted_words(tasks)));
        },
        StoreErrorModel::NothingToArchive(change) => {
            lemma_occurs(
                "change "@,
                uuid_text(change.0),
                " proposes no spec deltas and did not declare skip_specs; there is nothing to archive"@,
            );
        },
        StoreErrorModel::RunNotBoundToChange { run } => {
            lemma_occurs(
                "run "@,
                uuid_text(run.0),
                " is bound to no change, so there is no plan to look a task number up in; bind it to the change being executed and send the tick again"@,
            );
        },
        StoreErrorModel::ChangeSlugAmbiguous { slug, namespaces } => {
            lemma_both_occur(
                "the slug "@,
                in_quotes(slug),
                " this run is bound to names an open change in each of "@,
                joined(namespaces, ", "@),
                "; nothing can tell which of those plans the tick belongs to"@,
            );
        },
        StoreErrorModel::ChangeSlugNotFound(slug) => {
            lemma_occurs(
                "no open change in this workspace is called "@,
                in_quotes(slug),
                "; a slug leaves this list once its change is archived or abandoned, so re-bind the run to the change being executed — or, if that change is the archived one, its work is already signed off"@,
            );
        },
        StoreErrorModel::TaskNotFound { slug, number, open } => {
            lemma_both_occur(
                "the plan of "@,
                in_quotes(slug),
                " has no task numbered "@,
                in_quotes(number),
                "; "@ + open_words(slug, open),
            );
            assert(e.message() =~= "the plan of "@ + in_quotes(slug) + " has no task numbered "@
                + in_quotes(number) + ("; "@ + open_words(slug, open)));
        },
        StoreErrorModel::VerifyCommandMismatch { number, expected } => {
            lemma_both_occur(
                "task "@,
                number,
                " is verified by "@,
                in_quotes(expected),
                "; a tick carrying another command proves nothing about it"@,
            );
        },
        StoreErrorModel::FileHeldByAnotherTask { number, path, holder } => {
            lemma_both_occur(
                "task "@,
                number,
                " edited "@,
                path,
                ", which task "@ + holder
                    + " was holding at the time; closing it would file a collision as clean work"@,
            );
            assert(e.message() =~= "task "@ + number + " edited "@ + path
                + (", which task "@ + holder + " was holding at the time; closing it would file a collision as clean work"@));
            lemma_occurs(
                "task "@ + number + " edited "@ + path + ", which task "@,
                holder,
                " was holding at the time; closing it would file a collision as clean work"@,
            );
        },
        _ => {},
    }
}

/// A refusal over a list tells the list, and says so where there is nothing to tell.
pub proof fn law_a_refusal_tells_its_list(slug: Seq<char>, list: Seq<Seq<char>>)
    ensures
        list.len() == 0 ==> {
            &&& declared_words(list) == "its proposal declares no capabilities at all"@
            &&& unexecuted_words(list)
                == "it has no tasks at all, so nothing on it was planned or done"@
            &&& open_words(slug, list) == "every task of "@ + in_quotes(slug)
                + " is already closed"@
        },
        list.len() > 0 ==> {
            &&& occurs_in(joined(list, ", "@), declared_words(list))
            &&& occurs_in(joined(list, ", "@), unexecuted_words(list))
            &&& occurs_in(joined(list, ", "@), open_words(slug, list))
            &&& occurs_in(in_quotes(slug), open_words(slug, list))
        },
{
    if list.len() > 0 {
        let told = joined(list, ", "@);
        let none = Seq::<char>::empty();
        lemma_occurs("its proposal declares: "@, told, none);
        lemma_occurs("these tasks are still open: "@, told, none);
        lemma_both_occur("the numbers still open in "@, in_quotes(slug), " are: "@, told, none);
        assert(declared_words(list) =~= "its proposal declares: "@ + told + none);
        assert(unexecuted_words(list) =~= "these tasks are still open: "@ + told + none);
        assert(open_words(slug, list) =~= "the numbers still open in "@ + in_quotes(slug)
            + " are: "@ + told + none);
    }
}

} // verus!
