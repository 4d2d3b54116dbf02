//! Why the store refuses.

use vstd::prelude::*;

use crate::ids::{ChangeId, DependencyId, OperationId, RunId, SessionId};
use crate::outside::uuid_text;
use crate::text::{copy_text, decimal, enquote, in_quotes, join, joined, write_decimal};

verus! {

// --- the domain ------------------------------------------------------------

/// What the domain refuses a command for.
#[derive(Debug, PartialEq, Eq)]
pub enum DomainError {
    /// A new run names no directory to work in.
    MissingWorkspaceRoot,
    /// The strongest status was asserted with nothing behind it.
    VerifiedWithoutEvidence,
    /// Another rule of the domain, under the code and the words it has there.
    Rejected { code: &'static str, message: String },
}

/// The contents of a [`DomainError`].
#[verifier::ext_equal]
pub enum DomainErrorModel {
    MissingWorkspaceRoot,
    VerifiedWithoutEvidence,
    Rejected { code: Seq<char>, message: Seq<char> },
}

impl View for DomainError {
    type V = DomainErrorModel;

    open spec fn view(&self) -> DomainErrorModel {
        match self {
            DomainError::MissingWorkspaceRoot => DomainErrorModel::MissingWorkspaceRoot,
            DomainError::VerifiedWithoutEvidence => DomainErrorModel::VerifiedWithoutEvidence,
            DomainError::Rejected { code, message } => DomainErrorModel::Rejected {
                code: code@,
                message: message@,
            },
        }
    }
}

impl DeepView for DomainError {
    type V = DomainErrorModel;

    open spec fn deep_view(&self) -> DomainErrorModel {
        self@
    }
}

impl DomainErrorModel {
    /// The stable name of the refusal.
    pub open spec fn code(self) -> Seq<char> {
        match self {
            DomainErrorModel::MissingWorkspaceRoot => "missing_workspace_root"@,
            DomainErrorModel::VerifiedWithoutEvidence => "verified_without_evidence"@,
            DomainErrorModel::Rejected { code, .. } => code,
        }
    }

    /// The refusal in words.
    pub open spec fn message(self) -> Seq<char> {
        match self {
            DomainErrorModel::MissingWorkspaceRoot => "a new run needs a workspace root"@,
            DomainErrorModel::VerifiedWithoutEvidence => "a verified fact needs evidence"@,
            DomainErrorModel::Rejected { message, .. } => message,
        }
    }
}

impl DomainError {
    /// A copy.
    pub fn dup(&self) -> (r: Self)
        ensures
            r@ == self@,
    {
        match self {
            DomainError::MissingWorkspaceRoot => DomainError::MissingWorkspaceRoot,
            DomainError::VerifiedWithoutEvidence => DomainError::VerifiedWithoutEvidence,
            DomainError::Rejected { code, message } => DomainError::Rejected {
                code: *code,
                message: copy_text(message),
            },
        }
    }

    /// Stable `snake_case` identifier.
    pub fn code(&self) -> (r: &'static str)
        ensures
            r@ == self@.code(),
    {
        match self {
            DomainError::MissingWorkspaceRoot => "missing_workspace_root",
            DomainError::VerifiedWithoutEvidence => "verified_without_evidence",
            DomainError::Rejected { code, .. } => *code,
        }
    }

    /// The refusal in words.
    pub fn message(&self) -> (r: String)
        ensures
            r@ == self@.message(),
    {
        match self {
            DomainError::MissingWorkspaceRoot => "a new run needs a workspace root".to_owned(),
            DomainError::VerifiedWithoutEvidence => "a verified fact needs evidence".to_owned(),
            DomainError::Rejected { message, .. } => copy_text(message),
        }
    }
}

// --- the store -------------------------------------------------------------

/// Why the store refused.
#[derive(Debug, PartialEq, Eq)]
pub enum StoreError {
    /// The domain refused the command.
    Domain(DomainError),
    /// The database failed.
    Database(String),
    /// A stored value could not be read, or a value could not be written.
    Serialization(String),
    /// No run has this identifier.
    RunNotFound(RunId),
    /// No session has this identifier.
    SessionNotFound(SessionId),
    /// The run is completed and takes no more work.
    RunClosed(RunId),
    /// The same operation arrived carrying a different request. Replaying the stored
    /// response would answer a question that was never asked.
    IdempotencyConflict(OperationId),
    /// The database was written by a newer build.
    UnsupportedSchema(i64),
    /// A tool that works on the run in flight was called with nothing in flight.
    NoOpenRun,
    /// No dependency has this identifier.
    DependencyNotFound(DependencyId),
    /// The slug names a change that is already past its proposal. A change still
    /// drafting or specified has its proposal rewritten instead.
    SlugTaken(String),
    /// A rewritten proposal stopped declaring a capability this change has already
    /// written deltas for.
    CapabilityDeltasStranded(Vec<String>),
    /// A spec was filed against a capability nobody proposed.
    CapabilityNotProposed { capability_path: String, declared: Vec<String> },
    /// A change belongs to a workspace, and the context named none.
    NoWorkspace,
    /// The change is not in this workspace.
    ChangeNotFound(ChangeId),
    /// Archived and abandoned changes are finished.
    ChangeClosed(ChangeId),
    /// A new capability with no stated purpose is one nobody can review.
    CapabilityPurposeRequired(String),
    /// The capability already has a purpose.
    CapabilityPurposeRedundant(String),
    /// The requirement moved underneath an identifier.
    RequirementNotFound { requirement_id: String, capability_path: String },
    /// A delta named a requirement that is not live. The live names come with it.
    RequirementNameNotLive { name: String, capability_path: String, live: Vec<String> },
    /// A requirement name this change has used once cannot be used again.
    DeltaAlreadyProposed { requirement_name: String, capability_path: String },
    /// A plan describes how to satisfy a spec, so there has to be one to plan against.
    ChangeNotSpecified { change: ChangeId, status: String },
    /// Every requirement a change proposes needs a task that implements it.
    RequirementsUncovered(Vec<String>),
    /// The plan is fine and the work is not: the task was never finished.
    RequirementsUnimplemented(Vec<String>),
    /// A plan consumes an artifact no task in it produces.
    ArtifactsUnproduced(Vec<String>),
    /// No task of the plan can ever be first.
    PlanIsCyclic(Vec<String>),
    /// Work of the change is still open, or was never planned.
    ChangeNotExecuted { change: ChangeId, tasks: Vec<String> },
    /// The change has nothing to fold in.
    NothingToArchive(ChangeId),
    /// A tick came on a run that names no change.
    RunNotBoundToChange { run: RunId },
    /// The slug a run is bound to names an open change in more than one namespace.
    ChangeSlugAmbiguous { slug: String, namespaces: Vec<String> },
    /// The run is bound to a slug that no open change here answers to.
    ChangeSlugNotFound(String),
    /// A tick named a number this plan has no task for. The numbers still open
    /// travel with it.
    TaskNotFound { slug: String, number: String, open: Vec<String> },
    /// The tick carried a different command from the one the plan named.
    VerifyCommandMismatch { number: String, expected: String },
    /// A task edited a file another session was holding for its own task.
    FileHeldByAnotherTask { number: String, path: String, holder: String },
}

/// The contents of a [`StoreError`].
#[verifier::ext_equal]
pub enum StoreErrorModel {
    Domain(DomainErrorModel),
    Database(Seq<char>),
    Serialization(Seq<char>),
    RunNotFound(RunId),
    SessionNotFound(SessionId),
    RunClosed(RunId),
    IdempotencyConflict(OperationId),
    UnsupportedSchema(i64),
    NoOpenRun,
    DependencyNotFound(DependencyId),
    SlugTaken(Seq<char>),
    CapabilityDeltasStranded(Seq<Seq<char>>),
    CapabilityNotProposed { capability_path: Seq<char>, declared: Seq<Seq<char>> },
    NoWorkspace,
    ChangeNotFound(ChangeId),
    ChangeClosed(ChangeId),
    CapabilityPurposeRequired(Seq<char>),
    CapabilityPurposeRedundant(Seq<char>),
    RequirementNotFound { requirement_id: Seq<char>, capability_path: Seq<char> },
    RequirementNameNotLive { name: Seq<char>, capability_path: Seq<char>, live: Seq<Seq<char>> },
    DeltaAlreadyProposed { requirement_name: Seq<char>, capability_path: Seq<char> },
    ChangeNotSpecified { change: ChangeId, status: Seq<char> },
    RequirementsUncovered(Seq<Seq<char>>),
    RequirementsUnimplemented(Seq<Seq<char>>),
    ArtifactsUnproduced(Seq<Seq<char>>),
    PlanIsCyclic(Seq<Seq<char>>),
    ChangeNotExecuted { change: ChangeId, tasks: Seq<Seq<char>> },
    NothingToArchive(ChangeId),
    RunNotBoundToChange { run: RunId },
    ChangeSlugAmbiguous { slug: Seq<char>, namespaces: Seq<Seq<char>> },
    ChangeSlugNotFound(Seq<char>),
    TaskNotFound { slug: Seq<char>, number: Seq<char>, open: Seq<Seq<char>> },
    VerifyCommandMismatch { number: Seq<char>, expected: Seq<char> },
    FileHeldByAnotherTask { number: Seq<char>, path: Seq<char>, holder: Seq<char> },
}

impl View for StoreError {
    type V = StoreErrorModel;

    open spec fn view(&self) -> StoreErrorModel {
        match self {
            StoreError::Domain(inner) => StoreErrorModel::Domain(inner@),
            StoreError::Database(reason) => StoreErrorModel::Database(reason@),
            StoreError::Serialization(reason) => StoreErrorModel::Serialization(reason@),
            StoreError::RunNotFound(run) => StoreErrorModel::RunNotFound(*run),
            StoreError::SessionNotFound(session) => StoreErrorModel::SessionNotFound(*session),
            StoreError::RunClosed(run) => StoreErrorModel::RunClosed(*run),
            StoreError::IdempotencyConflict(operation) => StoreErrorModel::IdempotencyConflict(
                *operation,
            ),
            StoreError::UnsupportedSchema(version) => StoreErrorModel::UnsupportedSchema(*version),
            StoreError::NoOpenRun => StoreErrorModel::NoOpenRun,
            StoreError::DependencyNotFound(dependency) => StoreErrorModel::DependencyNotFound(
                *dependency,
            ),
            StoreError::SlugTaken(slug) => StoreErrorModel::SlugTaken(slug@),
            StoreError::CapabilityDeltasStranded(dropped) => StoreErrorModel::CapabilityDeltasStranded(
                dropped.deep_view(),
            ),
            StoreError::CapabilityNotProposed { capability_path, declared } => StoreErrorModel::CapabilityNotProposed {
                capability_path: capability_path@,
                declared: declared.deep_view(),
            },
            StoreError::NoWorkspace => StoreErrorModel::NoWorkspace,
            StoreError::ChangeNotFound(change) => StoreErrorModel::ChangeNotFound(*change),
            StoreError::ChangeClosed(change) => StoreErrorModel::ChangeClosed(*change),
            StoreError::CapabilityPurposeRequired(path) => StoreErrorModel::CapabilityPurposeRequired(
                path@,
            ),
            StoreError::CapabilityPurposeRedundant(path) => StoreErrorModel::CapabilityPurposeRedundant(
                path@,
            ),
            StoreError::RequirementNotFound { requirement_id, capability_path } => StoreErrorModel::RequirementNotFound {
                requirement_id: requirement_id@,
                capability_path: capability_path@,
            },
            StoreError::RequirementNameNotLive { name, capability_path, live } => StoreErrorModel::RequirementNameNotLive {
                name: name@,
                capability_path: capability_path@,
                live: live.deep_view(),
            },
            StoreError::DeltaAlreadyProposed { requirement_name, capability_path } => StoreErrorModel::DeltaAlreadyProposed {
                requirement_name: requirement_name@,
                capability_path: capability_path@,
            },
            StoreError::ChangeNotSpecified { change, status } => StoreErrorModel::ChangeNotSpecified {
                change: *change,
                status: status@,
            },
            StoreError::RequirementsUncovered(names) => StoreErrorModel::RequirementsUncovered(
                names.deep_view(),
            ),
            StoreError::RequirementsUnimplemented(names) => StoreErrorModel::RequirementsUnimplemented(
                names.deep_view(),
            ),
            StoreError::ArtifactsUnproduced(names) => StoreErrorModel::ArtifactsUnproduced(
                names.deep_view(),
            ),
            StoreError::PlanIsCyclic(tasks) => StoreErrorModel::PlanIsCyclic(tasks.deep_view()),
            StoreError::ChangeNotExecuted { change, tasks } => StoreErrorModel::ChangeNotExecuted {
                change: *change,
                tasks: tasks.deep_view(),
            },
            StoreError::NothingToArchive(change) => StoreErrorModel::NothingToArchive(*change),
            StoreError::RunNotBoundToChange { run } => StoreErrorModel::RunNotBoundToChange {
                run: *run,
            },
            StoreError::ChangeSlugAmbiguous { slug, namespaces } => StoreErrorModel::ChangeSlugAmbiguous {
                slug: slug@,
                namespaces: namespaces.deep_view(),
            },
            StoreError::ChangeSlugNotFound(slug) => StoreErrorModel::ChangeSlugNotFound(slug@),
            StoreError::TaskNotFound { slug, number, open } => StoreErrorModel::TaskNotFound {
                slug: slug@,
                number: number@,
                open: open.deep_view(),
            },
            StoreError::VerifyCommandMismatch { number, expected } => StoreErrorModel::VerifyCommandMismatch {
                number: number@,
                expected: expected@,
            },
            StoreError::FileHeldByAnotherTask { number, path, holder } => StoreErrorModel::FileHeldByAnotherTask {
                number: number@,
                path: path@,
                holder: holder@,
            },
        }
    }
}

impl DeepView for StoreError {
    type V = StoreErrorModel;

    open spec fn deep_view(&self) -> StoreErrorModel {
        self@
    }
}

/// What a call that may be refused came to.
pub open spec fn outcome<T: DeepView>(r: Result<T, StoreError>) -> Result<T::V, StoreErrorModel> {
    match r {
        Ok(value) => Ok(value.deep_view()),
        Err(error) => Err(error@),
    }
}

// --- details of a message --------------------------------------------------

/// What a proposal declares, for the message about a capability it does not.
pub open spec fn declared_words(declared: Seq<Seq<char>>) -> Seq<char> {
    if declared.len() == 0 {
        "its proposal declares no capabilities at all"@
    } else {
        "its proposal declares: "@ + joined(declared, ", "@)
    }
}

/// The tail of [`StoreError::CapabilityNotProposed`]'s message.
pub fn declared_detail(declared: &Vec<String>) -> (r: String)
    ensures
        r@ == declared_words(declared.deep_view()),
{
    if declared.is_empty() {
        "its proposal declares no capabilities at all".to_owned()
    } else {
        let mut r = "its proposal declares: ".to_owned();
        r.append(join(declared, ", ").as_str());
        r
    }
}

/// What is still open in a plan, for the message about a number it does not
/// have. The plan is named in both shapes: a caller holding a stale binding
/// reads this about a plan other than the one it is working on.
pub open spec fn open_words(slug: Seq<char>, open: Seq<Seq<char>>) -> Seq<char> {
    if open.len() == 0 {
        "every task of "@ + in_quotes(slug) + " is already closed"@
    } else {
        "the numbers still open in "@ + in_quotes(slug) + " are: "@ + joined(open, ", "@)
    }
}

/// The tail of [`StoreError::TaskNotFound`]'s message.
pub fn open_detail(slug: &str, open: &Vec<String>) -> (r: String)
    ensures
        r@ == open_words(slug@, open.deep_view()),
{
    if open.is_empty() {
        let mut r = "every task of ".to_owned();
        r.append(enquote(slug).as_str());
        r.append(" is already closed");
        r
    } else {
        let mut r = "the numbers still open in ".to_owned();
        r.append(enquote(slug).as_str());
        r.append(" are: ");
        r.append(join(open, ", ").as_str());
        r
    }
}

/// What was not executed. An empty list means there was never a plan, which is
/// a different thing to fix though it is the same refusal.
pub open spec fn unexecuted_words(tasks: Seq<Seq<char>>) -> Seq<char> {
    if tasks.len() == 0 {
        "it has no tasks at all, so nothing on it was planned or done"@
    } else {
        "these tasks are still open: "@ + joined(tasks, ", "@)
    }
}

/// The tail of [`StoreError::ChangeNotExecuted`]'s message.
pub fn unexecuted_detail(tasks: &Vec<String>) -> (r: String)
    ensures
        r@ == unexecuted_words(tasks.deep_view()),
{
    if tasks.is_empty() {
        "it has no tasks at all, so nothing on it was planned or done".to_owned()
    } else {
        let mut r = "these tasks are still open: ".to_owned();
        r.append(join(tasks, ", ").as_str());
        r
    }
}

impl StoreErrorModel {
    /// The stable name of the refusal.
    pub open spec fn code(self) -> Seq<char> {
        match self {
            StoreErrorModel::Domain(inner) => inner.code(),
            StoreErrorModel::Database(_) => "database_error"@,
            StoreErrorModel::Serialization(_) => "serialization_error"@,
            StoreErrorModel::RunNotFound(_) => "run_not_found"@,
            StoreErrorModel::SessionNotFound(_) => "session_not_found"@,
            StoreErrorModel::RunClosed(_) => "run_closed"@,
            StoreErrorModel::IdempotencyConflict(_) => "idempotency_conflict"@,
            StoreErrorModel::UnsupportedSchema(_) => "unsupported_schema"@,
            StoreErrorModel::NoOpenRun => "no_open_run"@,
            StoreErrorModel::DependencyNotFound(_) => "dependency_not_found"@,
            StoreErrorModel::SlugTaken(_) => "slug_taken"@,
            StoreErrorModel::CapabilityDeltasStranded(_) => "capability_deltas_stranded"@,
            StoreErrorModel::CapabilityNotProposed { .. } => "capability_not_proposed"@,
            StoreErrorModel::NoWorkspace => "no_workspace"@,
            StoreErrorModel::ChangeNotFound(_) => "change_not_found"@,
            StoreErrorModel::ChangeClosed(_) => "change_closed"@,
            StoreErrorModel::CapabilityPurposeRequired(_) => "capability_purpose_required"@,
            StoreErrorModel::CapabilityPurposeRedundant(_) => "capability_purpose_redundant"@,
            StoreErrorModel::RequirementNotFound { .. } => "requirement_not_found"@,
            StoreErrorModel::RequirementNameNotLive { .. } => "requirement_name_not_live"@,
            StoreErrorModel::DeltaAlreadyProposed { .. } => "delta_already_proposed"@,
            StoreErrorModel::ChangeNotSpecified { .. } => "change_not_specified"@,
            StoreErrorModel::RequirementsUncovered(_) => "requirements_uncovered"@,
            StoreErrorModel::RequirementsUnimplemented(_) => "requirements_unimplemented"@,
            StoreErrorModel::ArtifactsUnproduced(_) => "artifacts_unproduced"@,
            StoreErrorModel::PlanIsCyclic(_) => "plan_is_cyclic"@,
            StoreErrorModel::ChangeNotExecuted { .. } => "change_not_executed"@,
            StoreErrorModel::NothingToArchive(_) => "nothing_to_archive"@,
            StoreErrorModel::RunNotBoundToChange { .. } => "run_not_bound"@,
            StoreErrorModel::ChangeSlugAmbiguous { .. } => "change_slug_ambiguous"@,
            StoreErrorModel::ChangeSlugNotFound(_) => "change_slug_not_found"@,
            StoreErrorModel::TaskNotFound { .. } => "task_not_found"@,
            StoreErrorModel::VerifyCommandMismatch { .. } => "verify_command_mismatch"@,
            StoreErrorModel::FileHeldByAnotherTask { .. } => "file_held_by_another_task"@,
        }
    }

    /// The refusal in words.
    pub open spec fn message(self) -> Seq<char> {
        match self {
            StoreErrorModel::Domain(inner) => inner.message(),
            StoreErrorModel::Database(reason) => "database error: "@ + reason,
            StoreErrorModel::Serialization(reason) => "serialization error: "@ + reason,
            StoreErrorModel::RunNotFound(run) => "run "@ + uuid_text(run.0) + " does not exist"@,
            StoreErrorModel::SessionNotFound(session) => "session "@
                + uuid_text(session.0) + " does not exist"@,
            StoreErrorModel::RunClosed(run) => "run "@
                + uuid_text(run.0) + " is already completed"@,
            StoreErrorModel::IdempotencyConflict(operation) => "operation "@
                + uuid_text(operation.0) + " was already used for a different request"@,
            StoreErrorModel::UnsupportedSchema(version) => "database schema version "@
                + decimal(version as int) + " is newer than this build understands"@,
            StoreErrorModel::NoOpenRun => {
                "no run is open in this workspace; call magent_start first"@
            },
            StoreErrorModel::DependencyNotFound(dependency) => "dependency "@
                + uuid_text(dependency.0) + " does not exist"@,
            StoreErrorModel::SlugTaken(slug) => "slug "@
                + in_quotes(slug)
                + " belongs to a change that is already past its proposal; a proposal is rewritten only while the change is drafting or specified"@,
            StoreErrorModel::CapabilityDeltasStranded(dropped) => "this change already proposes deltas for capabilities this proposal drops: "@
                + joined(dropped, ", "@)
                + "; keep them in capabilities, since a delta once written cannot be withdrawn"@,
            StoreErrorModel::CapabilityNotProposed { capability_path, declared } => "capability "@
                + in_quotes(capability_path) + " is not one this change proposed; "@
                + declared_words(declared),
            StoreErrorModel::NoWorkspace => {
                "this context names no workspace to file the change under"@
            },
            StoreErrorModel::ChangeNotFound(change) => "change "@
                + uuid_text(change.0) + " does not exist in this workspace"@,
            StoreErrorModel::ChangeClosed(change) => "change "@
                + uuid_text(change.0) + " is archived or abandoned and takes no further specs"@,
            StoreErrorModel::CapabilityPurposeRequired(path) => "capability "@
                + in_quotes(path) + " is new and needs a purpose"@,
            StoreErrorModel::CapabilityPurposeRedundant(path) => "capability "@
                + in_quotes(path)
                + " already has a purpose; remove it from this delta or edit the capability"@,
            StoreErrorModel::RequirementNotFound { requirement_id, capability_path } => "requirement "@
                + requirement_id + " is not a live requirement of capability "@
                + in_quotes(capability_path),
            StoreErrorModel::RequirementNameNotLive { name, capability_path, live } => "no live requirement of capability "@
                + in_quotes(capability_path) + " is called "@ + in_quotes(name) + "; it holds: "@
                + joined(live, ", "@),
            StoreErrorModel::DeltaAlreadyProposed { requirement_name, capability_path } => "this change already proposes a requirement named "@
                + in_quotes(requirement_name) + " for capability "@ + in_quotes(capability_path),
            StoreErrorModel::ChangeNotSpecified { change, status } => "change "@
                + uuid_text(change.0) + " is "@ + in_quotes(status)
                + "; a plan is written from a specified change, or from a drafting one proposed with skip_specs"@,
            StoreErrorModel::RequirementsUncovered(names) => "no task covers these requirements: "@
                + joined(names, ", "@) + "; add a task for each before planning"@,
            StoreErrorModel::RequirementsUnimplemented(names) => "no finished task covers these requirements: "@
                + joined(names, ", "@)
                + "; close the task covering each, or plan one, before archiving"@,
            StoreErrorModel::ArtifactsUnproduced(names) => "these consumed artifacts are produced by no task in the plan: "@
                + joined(names, ", "@)
                + "; produce each, or correct the name to match the task that does"@,
            StoreErrorModel::PlanIsCyclic(tasks) => "these tasks depend on each other in a cycle: "@
                + joined(tasks, ", "@)
                + "; no order can satisfy them, so one must stop consuming what a later task produces"@,
            StoreErrorModel::ChangeNotExecuted { change, tasks } => "change "@
                + uuid_text(change.0) + " is not executed: "@ + unexecuted_words(tasks),
            StoreErrorModel::NothingToArchive(change) => "change "@
                + uuid_text(change.0)
                + " proposes no spec deltas and did not declare skip_specs; there is nothing to archive"@,
            StoreErrorModel::RunNotBoundToChange { run } => "run "@
                + uuid_text(run.0)
                + " is bound to no change, so there is no plan to look a task number up in; bind it to the change being executed and send the tick again"@,
            StoreErrorModel::ChangeSlugAmbiguous { slug, namespaces } => "the slug "@
                + in_quotes(slug) + " this run is bound to names an open change in each of "@
                + joined(namespaces, ", "@)
                + "; nothing can tell which of those plans the tick belongs to"@,
            StoreErrorModel::ChangeSlugNotFound(slug) => "no open change in this workspace is called "@
                + in_quotes(slug)
                + "; a slug leaves this list once its change is archived or abandoned, so re-bind the run to the change being executed — or, if that change is the archived one, its work is already signed off"@,
            StoreErrorModel::TaskNotFound { slug, number, open } => "the plan of "@
                + in_quotes(slug) + " has no task numbered "@ + in_quotes(number) + "; "@
                + open_words(slug, open),
            StoreErrorModel::VerifyCommandMismatch { number, expected } => "task "@
                + number + " is verified by "@ + in_quotes(expected)
                + "; a tick carrying another command proves nothing about it"@,
            StoreErrorModel::FileHeldByAnotherTask { number, path, holder } => "task "@
                + number + " edited "@ + path + ", which task "@ + holder
                + " was holding at the time; closing it would file a collision as clean work"@,
        }
    }
}

impl StoreError {
    /// Stable `snake_case` identifier, surfaced to the model.
    pub fn code(&self) -> (r: &'static str)
        ensures
            r@ == self@.code(),
    {
        match self {
            StoreError::Domain(inner) => inner.code(),
            StoreError::Database(_) => "database_error",
            StoreError::Serialization(_) => "serialization_error",
            StoreError::RunNotFound(_) => "run_not_found",
            StoreError::SessionNotFound(_) => "session_not_found",
            StoreError::RunClosed(_) => "run_closed",
            StoreError::IdempotencyConflict(_) => "idempotency_conflict",
            StoreError::UnsupportedSchema(_) => "unsupported_schema",
            StoreError::NoOpenRun => "no_open_run",
            StoreError::DependencyNotFound(_) => "dependency_not_found",
            StoreError::SlugTaken(_) => "slug_taken",
            StoreError::CapabilityDeltasStranded(_) => "capability_deltas_stranded",
            StoreError::CapabilityNotProposed { .. } => "capability_not_proposed",
            StoreError::NoWorkspace => "no_workspace",
            StoreError::ChangeNotFound(_) => "change_not_found",
            StoreError::ChangeClosed(_) => "change_closed",
            StoreError::CapabilityPurposeRequired(_) => "capability_purpose_required",
            StoreError::CapabilityPurposeRedundant(_) => "capability_purpose_redundant",
            StoreError::RequirementNotFound { .. } => "requirement_not_found",
            StoreError::RequirementNameNotLive { .. } => "requirement_name_not_live",
            StoreError::DeltaAlreadyProposed { .. } => "delta_already_proposed",
            StoreError::ChangeNotSpecified { .. } => "change_not_specified",
            StoreError::RequirementsUncovered(_) => "requirements_uncovered",
            StoreError::RequirementsUnimplemented(_) => "requirements_unimplemented",
            StoreError::ArtifactsUnproduced(_) => "artifacts_unproduced",
            StoreError::PlanIsCyclic(_) => "plan_is_cyclic",
            StoreError::ChangeNotExecuted { .. } => "change_not_executed",
            StoreError::NothingToArchive(_) => "nothing_to_archive",
            StoreError::RunNotBoundToChange { .. } => "run_not_bound",
            StoreError::ChangeSlugAmbiguous { .. } => "change_slug_ambiguous",
            StoreError::ChangeSlugNotFound(_) => "change_slug_not_found",
            StoreError::TaskNotFound { .. } => "task_not_found",
            StoreError::VerifyCommandMismatch { .. } => "verify_command_mismatch",
            StoreError::FileHeldByAnotherTask { .. } => "file_held_by_another_task",
        }
    }

    /// The refusal in words.
    pub fn message(&self) -> (r: String)
        ensures
            r@ == self@.message(),
    {
        match self {
            StoreError::Domain(inner) => inner.message(),
            StoreError::Database(reason) => {
                let mut r = "database error: ".to_owned();
                r.append(reason.as_str());
                r
            },
            StoreError::Serialization(reason) => {
                let mut r = "serialization error: ".to_owned();
                r.append(reason.as_str());
                r
            },
            StoreError::RunNotFound(run) => {
                let mut r = "run ".to_owned();
                r.append(run.text().as_str());
                r.append(" does not exist");
                r
            },
            StoreError::SessionNotFound(session) => {
                let mut r = "session ".to_owned();
                r.append(session.text().as_str());
                r.append(" does not exist");
                r
            },
            StoreError::RunClosed(run) => {
                let mut r = "run ".to_owned();
                r.append(run.text().as_str());
                r.append(" is already completed");
                r
            },
            StoreError::IdempotencyConflict(operation) => {
                let mut r = "operation ".to_owned();
                r.append(operation.text().as_str());
                r.append(" was already used for a different request");
                r
            },
            StoreError::UnsupportedSchema(version) => {
                let mut r = "database schema version ".to_owned();
                r.append(write_decimal(*version).as_str());
                r.append(" is newer than this build understands");
                r
            },
            StoreError::NoOpenRun => {
                "no run is open in this workspace; call magent_start first".to_owned()
            },
            StoreError::DependencyNotFound(dependency) => {
                let mut r = "dependency ".to_owned();
                r.append(dependency.text().as_str());
                r.append(" does not exist");
                r
            },
            StoreError::SlugTaken(slug) => {
                let mut r = "slug ".to_owned();
                r.append(enquote(slug.as_str()).as_str());
                r.append(" belongs to a change that is already past its proposal; a proposal is rewritten only while the change is drafting or specified");
                r
            },
            StoreError::CapabilityDeltasStranded(dropped) => {
                let mut r = "this change already proposes deltas for capabilities this proposal drops: ".to_owned();
                r.append(join(dropped, ", ").as_str());
                r.append("; keep them in capabilities, since a delta once written cannot be withdrawn");
                r
            },
            StoreError::CapabilityNotProposed { capability_path, declared } => {
                let mut r = "capability ".to_owned();
                r.append(enquote(capability_path.as_str()).as_str());
                r.append(" is not one this change proposed; ");
                r.append(declared_detail(declared).as_str());
                r
            },
            StoreError::NoWorkspace => {
                "this context names no workspace to file the change under".to_owned()
            },
            StoreError::ChangeNotFound(change) => {
                let mut r = "change ".to_owned();
                r.append(change.text().as_str());
                r.append(" does not exist in this workspace");
                r
            },
            StoreError::ChangeClosed(change) => {
                let mut r = "change ".to_owned();
                r.append(change.text().as_str());
                r.append(" is archived or abandoned and takes no further specs");
                r
            },
            StoreError::CapabilityPurposeRequired(path) => {
                let mut r = "capability ".to_owned();
                r.append(enquote(path.as_str()).as_str());
                r.append(" is new and needs a purpose");
                r
            },
            StoreError::CapabilityPurposeRedundant(path) => {
                let mut r = "capability ".to_owned();
                r.append(enquote(path.as_str()).as_str());
                r.append(" already has a purpose; remove it from this delta or edit the capability");
                r
            },
            StoreError::RequirementNotFound { requirement_id, capability_path } => {
                let mut r = "requirement ".to_owned();
                r.append(requirement_id.as_str());
                r.append(" is not a live requirement of capability ");
                r.append(enquote(capability_path.as_str()).as_str());
                r
            },
            StoreError::RequirementNameNotLive { name, capability_path, live } => {
                let mut r = "no live requirement of capability ".to_owned();
                r.append(enquote(capability_path.as_str()).as_str());
                r.append(" is called ");
                r.append(enquote(name.as_str()).as_str());
                r.append("; it holds: ");
                r.append(join(live, ", ").as_str());
                r
            },
            StoreError::DeltaAlreadyProposed { requirement_name, capability_path } => {
                let mut r = "this change already proposes a requirement named ".to_owned();
                r.append(enquote(requirement_name.as_str()).as_str());
                r.append(" for capability ");
                r.append(enquote(capability_path.as_str()).as_str());
                r
            },
            StoreError::ChangeNotSpecified { change, status } => {
                let mut r = "change ".to_owned();
                r.append(change.text().as_str());
                r.append(" is ");
                r.append(enquote(status.as_str()).as_str());
                r.append("; a plan is written from a specified change, or from a drafting one proposed with skip_specs");
                r
            },
            StoreError::RequirementsUncovered(names) => {
                let mut r = "no task covers these requirements: ".to_owned();
                r.append(join(names, ", ").as_str());
                r.append("; add a task for each before planning");
                r
            },
            StoreError::RequirementsUnimplemented(names) => {
                let mut r = "no finished task covers these requirements: ".to_owned();
                r.append(join(names, ", ").as_str());
                r.append("; close the task covering each, or plan one, before archiving");
                r
            },
            StoreError::ArtifactsUnproduced(names) => {
                let mut r = "these consumed artifacts are produced by no task in the plan: ".to_owned();
                r.append(join(names, ", ").as_str());
                r.append("; produce each, or correct the name to match the task that does");
                r
            },
            StoreError::PlanIsCyclic(tasks) => {
                let mut r = "these tasks depend on each other in a cycle: ".to_owned();
                r.append(join(tasks, ", ").as_str());
                r.append("; no order can satisfy them, so one must stop consuming what a later task produces");
                r
            },
            StoreError::ChangeNotExecuted { change, tasks } => {
                let mut r = "change ".to_owned();
                r.append(change.text().as_str());
                r.append(" is not executed: ");
                r.append(unexecuted_detail(tasks).as_str());
                r
            },
            StoreError::NothingToArchive(change) => {
                let mut r = "change ".to_owned();
                r.append(change.text().as_str());
                r.append(" proposes no spec deltas and did not declare skip_specs; there is nothing to archive");
                r
            },
            StoreError::RunNotBoundToChange { run } => {
                let mut r = "run ".to_owned();
                r.append(run.text().as_str());
                r.append(" is bound to no change, so there is no plan to look a task number up in; bind it to the change being executed and send the tick again");
                r
            },
            StoreError::ChangeSlugAmbiguous { slug, namespaces } => {
                let mut r = "the slug ".to_owned();
                r.append(enquote(slug.as_str()).as_str());
                r.append(" this run is bound to names an open change in each of ");
                r.append(join(namespaces, ", ").as_str());
                r.append("; nothing can tell which of those plans the tick belongs to");
                r
            },
            StoreError::ChangeSlugNotFound(slug) => {
                let mut r = "no open change in this workspace is called ".to_owned();
                r.append(enquote(slug.as_str()).as_str());
                r.append("; a slug leaves this list once its change is archived or abandoned, so re-bind the run to the change being executed — or, if that change is the archived one, its work is already signed off");
                r
            },
            StoreError::TaskNotFound { slug, number, open } => {
                let mut r = "the plan of ".to_owned();
                r.append(enquote(slug.as_str()).as_str());
                r.append(" has no task numbered ");
                r.append(enquote(number.as_str()).as_str());
                r.append("; ");
                r.append(open_detail(slug.as_str(), open).as_str());
                r
            },
            StoreError::VerifyCommandMismatch { number, expected } => {
                let mut r = "task ".to_owned();
                r.append(number.as_str());
                r.append(" is verified by ");
                r.append(enquote(expected.as_str()).as_str());
                r.append("; a tick carrying another command proves nothing about it");
                r
            },
            StoreError::FileHeldByAnotherTask { number, path, holder } => {
                let mut r = "task ".to_owned();
                r.append(number.as_str());
                r.append(" edited ");
                r.append(path.as_str());
                r.append(", which task ");
                r.append(holder.as_str());
                r.append(" was holding at the time; closing it would file a collision as clean work");
                r
            },
        }
    }
}

// --- laws ------------------------------------------------------------------

impl StoreErrorModel {
    /// The place of the kind of refusal among all kinds.
    pub open spec fn kind(self) -> nat {
        match self {
            StoreErrorModel::Domain(_) => 0,
            StoreErrorModel::Database(_) => 1,
            StoreErrorModel::Serialization(_) => 2,
            StoreErrorModel::RunNotFound(_) => 3,
            StoreErrorModel::SessionNotFound(_) => 4,
            StoreErrorModel::RunClosed(_) => 5,
            StoreErrorModel::IdempotencyConflict(_) => 6,
            StoreErrorModel::UnsupportedSchema(_) => 7,
            StoreErrorModel::NoOpenRun => 8,
            StoreErrorModel::DependencyNotFound(_) => 9,
            StoreErrorModel::SlugTaken(_) => 10,
            StoreErrorModel::CapabilityDeltasStranded(_) => 11,
            StoreErrorModel::CapabilityNotProposed { .. } => 12,
            StoreErrorModel::NoWorkspace => 13,
            StoreErrorModel::ChangeNotFound(_) => 14,
            StoreErrorModel::ChangeClosed(_) => 15,
            StoreErrorModel::CapabilityPurposeRequired(_) => 16,
            StoreErrorModel::CapabilityPurposeRedundant(_) => 17,
            StoreErrorModel::RequirementNotFound { .. } => 18,
            StoreErrorModel::RequirementNameNotLive { .. } => 19,
            StoreErrorModel::DeltaAlreadyProposed { .. } => 20,
            StoreErrorModel::ChangeNotSpecified { .. } => 21,
            StoreErrorModel::RequirementsUncovered(_) => 22,
            StoreErrorModel::RequirementsUnimplemented(_) => 23,
            StoreErrorModel::ArtifactsUnproduced(_) => 24,
            StoreErrorModel::PlanIsCyclic(_) => 25,
            StoreErrorModel::ChangeNotExecuted { .. } => 26,
            StoreErrorModel::NothingToArchive(_) => 27,
            StoreErrorModel::RunNotBoundToChange { .. } => 28,
            StoreErrorModel::ChangeSlugAmbiguous { .. } => 29,
            StoreErrorModel::ChangeSlugNotFound(_) => 30,
            StoreErrorModel::TaskNotFound { .. } => 31,
            StoreErrorModel::VerifyCommandMismatch { .. } => 32,
            StoreErrorModel::FileHeldByAnotherTask { .. } => 33,
        }
    }
}

/// The kind of refusal a code belongs to, told by its length, its first character and the
/// fifth from its end.
spec fn kind_behind(code: Seq<char>) -> nat {
    let first = code[0];
    let fifth = code[code.len() - 5];
    if code.len() == 10 && first == 'r' && fifth == 'l' {
        5
    } else if code.len() == 10 && first == 's' && fifth == 't' {
        10
    } else if code.len() == 11 && first == 'n' && fifth == 'n' {
        8
    } else if code.len() == 12 && first == 'n' && fifth == 's' {
        13
    } else if code.len() == 13 && first == 'r' && fifth == 'f' {
        3
    } else if code.len() == 13 && first == 'c' && fifth == 'l' {
        15
    } else if code.len() == 13 && first == 'r' && fifth == 'b' {
        28
    } else if code.len() == 14 && first == 'd' && fifth == 'e' {
        1
    } else if code.len() == 14 && first == 'p' && fifth == 'y' {
        25
    } else if code.len() == 14 && first == 't' && fifth == 'f' {
        31
    } else if code.len() == 16 && first == 'c' && fifth == 'f' {
        14
    } else if code.len() == 17 && first == 's' && fifth == 'f' {
        4
    } else if code.len() == 18 && first == 'u' && fifth == 'c' {
        7
    } else if code.len() == 18 && first == 'n' && fifth == 'c' {
        27
    } else if code.len() == 19 && first == 's' && fifth == 'e' {
        2
    } else if code.len() == 19 && first == 'c' && fifth == 'c' {
        26
    } else if code.len() == 20 && first == 'i' && fifth == 'f' {
        6
    } else if code.len() == 20 && first == 'd' && fifth == 'f' {
        9
    } else if code.len() == 20 && first == 'c' && fifth == 'i' {
        21
    } else if code.len() == 20 && first == 'a' && fifth == 'd' {
        24
    } else if code.len() == 21 && first == 'r' && fifth == 'f' {
        18
    } else if code.len() == 21 && first == 'c' && fifth == 'g' {
        29
    } else if code.len() == 21 && first == 'c' && fifth == 'f' {
        30
    } else if code.len() == 22 && first == 'd' && fifth == 'p' {
        20
    } else if code.len() == 22 && first == 'r' && fifth == 'v' {
        22
    } else if code.len() == 23 && first == 'c' && fifth == 'p' {
        12
    } else if code.len() == 23 && first == 'v' && fifth == 'm' {
        32
    } else if code.len() == 25 && first == 'r' && fifth == '_' {
        19
    } else if code.len() == 25 && first == 'f' && fifth == '_' {
        33
    } else if code.len() == 26 && first == 'c' && fifth == 'a' {
        11
    } else if code.len() == 26 && first == 'r' && fifth == 'e' {
        23
    } else if code.len() == 27 && first == 'c' && fifth == 'u' {
        16
    } else if code.len() == 28 && first == 'c' && fifth == 'n' {
        17
    } else {
        0
    }
}

/// The first `n` characters are lower-case ASCII letters and underscores, with a letter
/// before each underscore.
pub open spec fn snake_up_to(s: Seq<char>, n: int) -> bool
    decreases n,
{
    n <= 0 || {
        &&& snake_up_to(s, n - 1)
        &&& 'a' <= s[n - 1] <= 'z' || (s[n - 1] == '_' && n > 1 && s[n - 2] != '_')
    }
}

/// Lower-case ASCII words, joined by single underscores.
pub open spec fn snake_case(s: Seq<char>) -> bool {
    s.len() > 0 && snake_up_to(s, s.len() as int) && s.last() != '_'
}

/// The code of a refusal of the store tells its kind, and is in snake case.
proof fn lemma_code_tells_the_kind(e: StoreErrorModel)
    requires
        !(e is Domain),
    ensures
        kind_behind(e.code()) == e.kind(),
        snake_case(e.code()),
{
    reveal_with_fuel(snake_up_to, 29);
    match e {
        StoreErrorModel::Domain(_) => {},
        StoreErrorModel::Database(_) => {
            reveal_strlit("database_error");
        },
        StoreErrorModel::Serialization(_) => {
            reveal_strlit("serialization_error");
        },
        StoreErrorModel::RunNotFound(_) => {
            reveal_strlit("run_not_found");
        },
        StoreErrorModel::SessionNotFound(_) => {
            reveal_strlit("session_not_found");
        },
        StoreErrorModel::RunClosed(_) => {
            reveal_strlit("run_closed");
        },
        StoreErrorModel::IdempotencyConflict(_) => {
            reveal_strlit("idempotency_conflict");
        },
        StoreErrorModel::UnsupportedSchema(_) => {
            reveal_strlit("unsupported_schema");
        },
        StoreErrorModel::NoOpenRun => {
            reveal_strlit("no_open_run");
        },
        StoreErrorModel::DependencyNotFound(_) => {
            reveal_strlit("dependency_not_found");
        },
        StoreErrorModel::SlugTaken(_) => {
            reveal_strlit("slug_taken");
        },
        StoreErrorModel::CapabilityDeltasStranded(_) => {
            reveal_strlit("capability_deltas_stranded");
        },
        StoreErrorModel::CapabilityNotProposed { .. } => {
            reveal_strlit("capability_not_proposed");
        },
        StoreErrorModel::NoWorkspace => {
            reveal_strlit("no_workspace");
        },
        StoreErrorModel::ChangeNotFound(_) => {
            reveal_strlit("change_not_found");
        },
        StoreErrorModel::ChangeClosed(_) => {
            reveal_strlit("change_closed");
        },
        StoreErrorModel::CapabilityPurposeRequired(_) => {
            reveal_strlit("capability_purpose_required");
        },
        StoreErrorModel::CapabilityPurposeRedundant(_) => {
            reveal_strlit("capability_purpose_redundant");
        },
        StoreErrorModel::RequirementNotFound { .. } => {
            reveal_strlit("requirement_not_found");
        },
        StoreErrorModel::RequirementNameNotLive { .. } => {
            reveal_strlit("requirement_name_not_live");
        },
        StoreErrorModel::DeltaAlreadyProposed { .. } => {
            reveal_strlit("delta_already_proposed");
        },
        StoreErrorModel::ChangeNotSpecified { .. } => {
            reveal_strlit("change_not_specified");
        },
        StoreErrorModel::RequirementsUncovered(_) => {
            reveal_strlit("requirements_uncovered");
        },
        StoreErrorModel::RequirementsUnimplemented(_) => {
            reveal_strlit("requirements_unimplemented");
        },
        StoreErrorModel::ArtifactsUnproduced(_) => {
            reveal_strlit("artifacts_unproduced");
        },
        StoreErrorModel::PlanIsCyclic(_) => {
            reveal_strlit("plan_is_cyclic");
        },
        StoreErrorModel::ChangeNotExecuted { .. } => {
            reveal_strlit("change_not_executed");
        },
        StoreErrorModel::NothingToArchive(_) => {
            reveal_strlit("nothing_to_archive");
        },
        StoreErrorModel::RunNotBoundToChange { .. } => {
            reveal_strlit("run_not_bound");
        },
        StoreErrorModel::ChangeSlugAmbiguous { .. } => {
            reveal_strlit("change_slug_ambiguous");
        },
        StoreErrorModel::ChangeSlugNotFound(_) => {
            reveal_strlit("change_slug_not_found");
        },
        StoreErrorModel::TaskNotFound { .. } => {
            reveal_strlit("task_not_found");
        },
        StoreErrorModel::VerifyCommandMismatch { .. } => {
            reveal_strlit("verify_command_mismatch");
        },
        StoreErrorModel::FileHeldByAnotherTask { .. } => {
            reveal_strlit("file_held_by_another_task");
        },
    }
}

/// Two refusals share a code exactly when they are of the same kind, whatever they carry; what
/// the domain refused keeps the code it has there.
pub proof fn law_a_code_stands_for_one_kind_of_refusal(a: StoreErrorModel, b: StoreErrorModel)
    requires
        !(a is Domain),
        !(b is Domain),
    ensures
        a.code() == b.code() <==> a.kind() == b.kind(),
{
    lemma_code_tells_the_kind(a);
    lemma_code_tells_the_kind(b);
}

/// The code of a refusal of the store is in snake case.
pub proof fn law_codes_are_in_snake_case(e: StoreErrorModel)
    requires
        !(e is Domain),
    ensures
        snake_case(e.code()),
{
    lemma_code_tells_the_kind(e);
}

} // verus!
