//! The tables the store keeps, and the store itself.
//!
//! A table is a list of rows in the order they were written. What a row means
//! to a reader is stated on its contents: the model of a row holds sequences of
//! characters where the row holds strings.

use vstd::prelude::*;

use crate::deps::{ref_key, DependencyStatus};
use crate::domain::{
    CheckpointCommand, CheckpointCommandModel, Request, RequestModel, Response, ResponseModel,
};
use crate::ids::{
    ChangeId, CheckpointId, DependencyId, FactId, OperationId, RepositoryId, RunId, SessionId,
    TaskId, WorkspaceId,
};
use crate::plan::live_status;
use crate::states::{
    Cardinality, ChangeStatus, CheckpointOrigin, Classification, FactKind, FactScope, FactStatus,
    HarnessKind, JobStatus, RelationKind, RepositoryRole, RunStatus, TaskStatus, WorkflowStage,
};
use crate::text::{copy_list, copy_option, copy_text};

verus! {

/// A place repositories are gathered in.
#[derive(Debug, PartialEq, Eq)]
pub struct WorkspaceRow {
    pub id: WorkspaceId,
    pub name: String,
    pub created_at: String,
    /// True when somebody named it; a repository alone in its workspace did not.
    pub explicit: bool,
}

/// The contents of a [`WorkspaceRow`].
#[verifier::ext_equal]
pub struct WorkspaceRowModel {
    pub id: WorkspaceId,
    pub name: Seq<char>,
    pub created_at: Seq<char>,
    pub explicit: bool,
}

impl View for WorkspaceRow {
    type V = WorkspaceRowModel;

    open spec fn view(&self) -> WorkspaceRowModel {
        WorkspaceRowModel {
            id: self.id,
            name: self.name@,
            created_at: self.created_at@,
            explicit: self.explicit,
        }
    }
}

impl DeepView for WorkspaceRow {
    type V = WorkspaceRowModel;

    open spec fn deep_view(&self) -> WorkspaceRowModel {
        self@
    }
}

impl WorkspaceRow {
    /// A copy.
    pub fn dup(&self) -> (r: Self)
        ensures
            r@ == self@,
    {
        WorkspaceRow {
            id: self.id,
            name: copy_text(&self.name),
            created_at: copy_text(&self.created_at),
            explicit: self.explicit,
        }
    }
}

/// A copy of a list of workspaces.
pub fn copy_workspace_row_list(list: &Vec<WorkspaceRow>) -> (r: Vec<WorkspaceRow>)
    ensures
        r.deep_view() == list.deep_view(),
{
    let mut r: Vec<WorkspaceRow> = Vec::new();
    let mut i: usize = 0;
    while i < list.len()
        invariant
            i <= list@.len(),
            r@.len() == i,
            forall|j: int| 0 <= j < i ==> r.deep_view()[j] == list.deep_view()[j],
        decreases list@.len() - i,
    {
        r.push(list[i].dup());
        i += 1;
    }
    assert(r.deep_view() =~= list.deep_view());
    r
}

/// A repository, under the key that identifies it.
#[derive(Debug, PartialEq, Eq)]
pub struct RepositoryRow {
    pub id: RepositoryId,
    pub workspace_id: WorkspaceId,
    pub identity_key: String,
    pub canonical_root: String,
    pub origin_url: Option<String>,
    pub role: RepositoryRole,
    pub created_at: String,
}

/// The contents of a [`RepositoryRow`].
#[verifier::ext_equal]
pub struct RepositoryRowModel {
    pub id: RepositoryId,
    pub workspace_id: WorkspaceId,
    pub identity_key: Seq<char>,
    pub canonical_root: Seq<char>,
    pub origin_url: Option<Seq<char>>,
    pub role: RepositoryRole,
    pub created_at: Seq<char>,
}

impl View for RepositoryRow {
    type V = RepositoryRowModel;

    open spec fn view(&self) -> RepositoryRowModel {
        RepositoryRowModel {
            id: self.id,
            workspace_id: self.workspace_id,
            identity_key: self.identity_key@,
            canonical_root: self.canonical_root@,
            origin_url: self.origin_url.deep_view(),
            role: self.role,
            created_at: self.created_at@,
        }
    }
}

impl DeepView for RepositoryRow {
    type V = RepositoryRowModel;

    open spec fn deep_view(&self) -> RepositoryRowModel {
        self@
    }
}

impl RepositoryRow {
    /// A copy.
    pub fn dup(&self) -> (r: Self)
        ensures
            r@ == self@,
    {
        RepositoryRow {
            id: self.id,
            workspace_id: self.workspace_id,
            identity_key: copy_text(&self.identity_key),
            canonical_root: copy_text(&self.canonical_root),
            origin_url: copy_option(&self.origin_url),
            role: self.role,
            created_at: copy_text(&self.created_at),
        }
    }
}

/// A copy of a list of repositories.
pub fn copy_repository_row_list(list: &Vec<RepositoryRow>) -> (r: Vec<RepositoryRow>)
    ensures
        r.deep_view() == list.deep_view(),
{
    let mut r: Vec<RepositoryRow> = Vec::new();
    let mut i: usize = 0;
    while i < list.len()
        invariant
            i <= list@.len(),
            r@.len() == i,
            forall|j: int| 0 <= j < i ==> r.deep_view()[j] == list.deep_view()[j],
        decreases list@.len() - i,
    {
        r.push(list[i].dup());
        i += 1;
    }
    assert(r.deep_view() =~= list.deep_view());
    r
}

/// One task, from its first prompt to its end.
#[derive(Debug, PartialEq, Eq)]
pub struct RunRecord {
    pub id: RunId,
    pub workspace_id: WorkspaceId,
    pub task: String,
    pub status: RunStatus,
    pub stage: WorkflowStage,
    pub outcome: Option<String>,
    /// The slug of the change the run is bound to.
    pub spec_change_id: Option<String>,
    pub current_task: Option<String>,
    pub created_at: String,
    pub updated_at: String,
}

/// The contents of a [`RunRecord`].
#[verifier::ext_equal]
pub struct RunRecordModel {
    pub id: RunId,
    pub workspace_id: WorkspaceId,
    pub task: Seq<char>,
    pub status: RunStatus,
    pub stage: WorkflowStage,
    pub outcome: Option<Seq<char>>,
    pub spec_change_id: Option<Seq<char>>,
    pub current_task: Option<Seq<char>>,
    pub created_at: Seq<char>,
    pub updated_at: Seq<char>,
}

impl View for RunRecord {
    type V = RunRecordModel;

    open spec fn view(&self) -> RunRecordModel {
        RunRecordModel {
            id: self.id,
            workspace_id: self.workspace_id,
            task: self.task@,
            status: self.status,
            stage: self.stage,
            outcome: self.outcome.deep_view(),
            spec_change_id: self.spec_change_id.deep_view(),
            current_task: self.current_task.deep_view(),
            created_at: self.created_at@,
            updated_at: self.updated_at@,
        }
    }
}

impl DeepView for RunRecord {
    type V = RunRecordModel;

    open spec fn deep_view(&self) -> RunRecordModel {
        self@
    }
}

impl RunRecord {
    /// A copy.
    pub fn dup(&self) -> (r: Self)
        ensures
            r@ == self@,
    {
        RunRecord {
            id: self.id,
            workspace_id: self.workspace_id,
            task: copy_text(&self.task),
            status: self.status,
            stage: self.stage,
            outcome: copy_option(&self.outcome),
            spec_change_id: copy_option(&self.spec_change_id),
            current_task: copy_option(&self.current_task),
            created_at: copy_text(&self.created_at),
            updated_at: copy_text(&self.updated_at),
        }
    }
}

/// A copy of a list of runs.
pub fn copy_run_record_list(list: &Vec<RunRecord>) -> (r: Vec<RunRecord>)
    ensures
        r.deep_view() == list.deep_view(),
{
    let mut r: Vec<RunRecord> = Vec::new();
    let mut i: usize = 0;
    while i < list.len()
        invariant
            i <= list@.len(),
            r@.len() == i,
            forall|j: int| 0 <= j < i ==> r.deep_view()[j] == list.deep_view()[j],
        decreases list@.len() - i,
    {
        r.push(list[i].dup());
        i += 1;
    }
    assert(r.deep_view() =~= list.deep_view());
    r
}

/// One harness session attached to a run.
#[derive(Debug, PartialEq, Eq)]
pub struct SessionRow {
    pub id: SessionId,
    pub run_id: RunId,
    pub harness: HarnessKind,
    /// The identifier the harness itself has for the session.
    pub external_session_hint: Option<String>,
    pub started_at: String,
    pub last_seen_at: Option<String>,
    pub ended_at: Option<String>,
}

/// The contents of a [`SessionRow`].
#[verifier::ext_equal]
pub struct SessionRowModel {
    pub id: SessionId,
    pub run_id: RunId,
    pub harness: HarnessKind,
    pub external_session_hint: Option<Seq<char>>,
    pub started_at: Seq<char>,
    pub last_seen_at: Option<Seq<char>>,
    pub ended_at: Option<Seq<char>>,
}

impl View for SessionRow {
    type V = SessionRowModel;

    open spec fn view(&self) -> SessionRowModel {
        SessionRowModel {
            id: self.id,
            run_id: self.run_id,
            harness: self.harness,
            external_session_hint: self.external_session_hint.deep_view(),
            started_at: self.started_at@,
            last_seen_at: self.last_seen_at.deep_view(),
            ended_at: self.ended_at.deep_view(),
        }
    }
}

impl DeepView for SessionRow {
    type V = SessionRowModel;

    open spec fn deep_view(&self) -> SessionRowModel {
        self@
    }
}

impl SessionRow {
    /// A copy.
    pub fn dup(&self) -> (r: Self)
        ensures
            r@ == self@,
    {
        SessionRow {
            id: self.id,
            run_id: self.run_id,
            harness: self.harness,
            external_session_hint: copy_option(&self.external_session_hint),
            started_at: copy_text(&self.started_at),
            last_seen_at: copy_option(&self.last_seen_at),
            ended_at: copy_option(&self.ended_at),
        }
    }
}

/// A copy of a list of sessions.
pub fn copy_session_row_list(list: &Vec<SessionRow>) -> (r: Vec<SessionRow>)
    ensures
        r.deep_view() == list.deep_view(),
{
    let mut r: Vec<SessionRow> = Vec::new();
    let mut i: usize = 0;
    while i < list.len()
        invariant
            i <= list@.len(),
            r@.len() == i,
            forall|j: int| 0 <= j < i ==> r.deep_view()[j] == list.deep_view()[j],
        decreases list@.len() - i,
    {
        r.push(list[i].dup());
        i += 1;
    }
    assert(r.deep_view() =~= list.deep_view());
    r
}

/// A checkpoint, with the command that wrote it.
#[derive(Debug, PartialEq, Eq)]
pub struct CheckpointRow {
    pub id: CheckpointId,
    pub run_id: RunId,
    pub session_id: SessionId,
    pub operation_id: OperationId,
    pub stage: WorkflowStage,
    pub origin: CheckpointOrigin,
    pub payload: CheckpointCommand,
    pub created_at: String,
}

/// The contents of a [`CheckpointRow`].
#[verifier::ext_equal]
pub struct CheckpointRowModel {
    pub id: CheckpointId,
    pub run_id: RunId,
    pub session_id: SessionId,
    pub operation_id: OperationId,
    pub stage: WorkflowStage,
    pub origin: CheckpointOrigin,
    pub payload: CheckpointCommandModel,
    pub created_at: Seq<char>,
}

impl View for CheckpointRow {
    type V = CheckpointRowModel;

    open spec fn view(&self) -> CheckpointRowModel {
        CheckpointRowModel {
            id: self.id,
            run_id: self.run_id,
            session_id: self.session_id,
            operation_id: self.operation_id,
            stage: self.stage,
            origin: self.origin,
            payload: self.payload@,
            created_at: self.created_at@,
        }
    }
}

impl DeepView for CheckpointRow {
    type V = CheckpointRowModel;

    open spec fn deep_view(&self) -> CheckpointRowModel {
        self@
    }
}

impl CheckpointRow {
    /// A copy.
    pub fn dup(&self) -> (r: Self)
        ensures
            r@ == self@,
    {
        CheckpointRow {
            id: self.id,
            run_id: self.run_id,
            session_id: self.session_id,
            operation_id: self.operation_id,
            stage: self.stage,
            origin: self.origin,
            payload: self.payload.dup(),
            created_at: copy_text(&self.created_at),
        }
    }
}

/// A copy of a list of checkpoints.
pub fn copy_checkpoint_row_list(list: &Vec<CheckpointRow>) -> (r: Vec<CheckpointRow>)
    ensures
        r.deep_view() == list.deep_view(),
{
    let mut r: Vec<CheckpointRow> = Vec::new();
    let mut i: usize = 0;
    while i < list.len()
        invariant
            i <= list@.len(),
            r@.len() == i,
            forall|j: int| 0 <= j < i ==> r.deep_view()[j] == list.deep_view()[j],
        decreases list@.len() - i,
    {
        r.push(list[i].dup());
        i += 1;
    }
    assert(r.deep_view() =~= list.deep_view());
    r
}

/// A request that was answered, and its answer.
#[derive(Debug, PartialEq, Eq)]
pub struct OperationRow {
    pub id: OperationId,
    pub request: Request,
    pub response: Response,
    pub created_at: String,
}

/// The contents of a [`OperationRow`].
#[verifier::ext_equal]
pub struct OperationRowModel {
    pub id: OperationId,
    pub request: RequestModel,
    pub response: ResponseModel,
    pub created_at: Seq<char>,
}

impl View for OperationRow {
    type V = OperationRowModel;

    open spec fn view(&self) -> OperationRowModel {
        OperationRowModel {
            id: self.id,
            request: self.request@,
            response: self.response@,
            created_at: self.created_at@,
        }
    }
}

impl DeepView for OperationRow {
    type V = OperationRowModel;

    open spec fn deep_view(&self) -> OperationRowModel {
        self@
    }
}

impl OperationRow {
    /// A copy.
    pub fn dup(&self) -> (r: Self)
        ensures
            r@ == self@,
    {
        OperationRow {
            id: self.id,
            request: self.request.dup(),
            response: self.response.dup(),
            created_at: copy_text(&self.created_at),
        }
    }
}

/// A copy of a list of operations.
pub fn copy_operation_row_list(list: &Vec<OperationRow>) -> (r: Vec<OperationRow>)
    ensures
        r.deep_view() == list.deep_view(),
{
    let mut r: Vec<OperationRow> = Vec::new();
    let mut i: usize = 0;
    while i < list.len()
        invariant
            i <= list@.len(),
            r@.len() == i,
            forall|j: int| 0 <= j < i ==> r.deep_view()[j] == list.deep_view()[j],
        decreases list@.len() - i,
    {
        r.push(list[i].dup());
        i += 1;
    }
    assert(r.deep_view() =~= list.deep_view());
    r
}

/// One file that was seen to change.
#[derive(Debug, PartialEq, Eq)]
pub struct LedgerRow {
    pub run_id: RunId,
    pub session_id: SessionId,
    pub path: String,
    pub tool: String,
    pub observed_at: String,
    /// The task the session was holding at that moment.
    pub task_id: Option<TaskId>,
    /// The number of the task whose file it was, when another session held it.
    pub trespass_on: Option<String>,
}

/// The contents of a [`LedgerRow`].
#[verifier::ext_equal]
pub struct LedgerRowModel {
    pub run_id: RunId,
    pub session_id: SessionId,
    pub path: Seq<char>,
    pub tool: Seq<char>,
    pub observed_at: Seq<char>,
    pub task_id: Option<TaskId>,
    pub trespass_on: Option<Seq<char>>,
}

impl View for LedgerRow {
    type V = LedgerRowModel;

    open spec fn view(&self) -> LedgerRowModel {
        LedgerRowModel {
            run_id: self.run_id,
            session_id: self.session_id,
            path: self.path@,
            tool: self.tool@,
            observed_at: self.observed_at@,
            task_id: self.task_id,
            trespass_on: self.trespass_on.deep_view(),
        }
    }
}

impl DeepView for LedgerRow {
    type V = LedgerRowModel;

    open spec fn deep_view(&self) -> LedgerRowModel {
        self@
    }
}

impl LedgerRow {
    /// A copy.
    pub fn dup(&self) -> (r: Self)
        ensures
            r@ == self@,
    {
        LedgerRow {
            run_id: self.run_id,
            session_id: self.session_id,
            path: copy_text(&self.path),
            tool: copy_text(&self.tool),
            observed_at: copy_text(&self.observed_at),
            task_id: self.task_id,
            trespass_on: copy_option(&self.trespass_on),
        }
    }
}

/// A copy of a list of ledger entries.
pub fn copy_ledger_row_list(list: &Vec<LedgerRow>) -> (r: Vec<LedgerRow>)
    ensures
        r.deep_view() == list.deep_view(),
{
    let mut r: Vec<LedgerRow> = Vec::new();
    let mut i: usize = 0;
    while i < list.len()
        invariant
            i <= list@.len(),
            r@.len() == i,
            forall|j: int| 0 <= j < i ==> r.deep_view()[j] == list.deep_view()[j],
        decreases list@.len() - i,
    {
        r.push(list[i].dup());
        i += 1;
    }
    assert(r.deep_view() =~= list.deep_view());
    r
}

/// Background work that is owed, under its kind and key.
#[derive(Debug, PartialEq, Eq)]
pub struct JobRow {
    pub kind: String,
    pub job_key: String,
    pub status: JobStatus,
    pub payload_json: String,
    pub retry_remaining: i64,
    pub retry_at: Option<String>,
    pub lease_until: Option<String>,
    pub worker_id: Option<String>,
    pub last_error: Option<String>,
    pub created_at: String,
    pub updated_at: String,
}

/// The contents of a [`JobRow`].
#[verifier::ext_equal]
pub struct JobRowModel {
    pub kind: Seq<char>,
    pub job_key: Seq<char>,
    pub status: JobStatus,
    pub payload_json: Seq<char>,
    pub retry_remaining: i64,
    pub retry_at: Option<Seq<char>>,
    pub lease_until: Option<Seq<char>>,
    pub worker_id: Option<Seq<char>>,
    pub last_error: Option<Seq<char>>,
    pub created_at: Seq<char>,
    pub updated_at: Seq<char>,
}

impl View for JobRow {
    type V = JobRowModel;

    open spec fn view(&self) -> JobRowModel {
        JobRowModel {
            kind: self.kind@,
            job_key: self.job_key@,
            status: self.status,
            payload_json: self.payload_json@,
            retry_remaining: self.retry_remaining,
            retry_at: self.retry_at.deep_view(),
            lease_until: self.lease_until.deep_view(),
            worker_id: self.worker_id.deep_view(),
            last_error: self.last_error.deep_view(),
            created_at: self.created_at@,
            updated_at: self.updated_at@,
        }
    }
}

impl DeepView for JobRow {
    type V = JobRowModel;

    open spec fn deep_view(&self) -> JobRowModel {
        self@
    }
}

impl JobRow {
    /// A copy.
    pub fn dup(&self) -> (r: Self)
        ensures
            r@ == self@,
    {
        JobRow {
            kind: copy_text(&self.kind),
            job_key: copy_text(&self.job_key),
            status: self.status,
            payload_json: copy_text(&self.payload_json),
            retry_remaining: self.retry_remaining,
            retry_at: copy_option(&self.retry_at),
            lease_until: copy_option(&self.lease_until),
            worker_id: copy_option(&self.worker_id),
            last_error: copy_option(&self.last_error),
            created_at: copy_text(&self.created_at),
            updated_at: copy_text(&self.updated_at),
        }
    }
}

/// A copy of a list of jobs.
pub fn copy_job_row_list(list: &Vec<JobRow>) -> (r: Vec<JobRow>)
    ensures
        r.deep_view() == list.deep_view(),
{
    let mut r: Vec<JobRow> = Vec::new();
    let mut i: usize = 0;
    while i < list.len()
        invariant
            i <= list@.len(),
            r@.len() == i,
            forall|j: int| 0 <= j < i ==> r.deep_view()[j] == list.deep_view()[j],
        decreases list@.len() - i,
    {
        r.push(list[i].dup());
        i += 1;
    }
    assert(r.deep_view() =~= list.deep_view());
    r
}

/// One value a fact has held.
#[derive(Debug, PartialEq, Eq)]
pub struct FactRow {
    pub id: FactId,
    pub name: String,
    pub title: String,
    pub body: String,
    pub kind: FactKind,
    pub scope: FactScope,
    pub cardinality: Cardinality,
    pub status: FactStatus,
    pub confidence: u64,
    pub workspace_id: Option<WorkspaceId>,
    pub run_id: Option<RunId>,
    pub namespace: Option<String>,
    pub provenance: String,
    pub superseded_by: Option<FactId>,
    pub created_at: String,
    pub updated_at: String,
}

/// The contents of a [`FactRow`].
#[verifier::ext_equal]
pub struct FactRowModel {
    pub id: FactId,
    pub name: Seq<char>,
    pub title: Seq<char>,
    pub body: Seq<char>,
    pub kind: FactKind,
    pub scope: FactScope,
    pub cardinality: Cardinality,
    pub status: FactStatus,
    pub confidence: u64,
    pub workspace_id: Option<WorkspaceId>,
    pub run_id: Option<RunId>,
    pub namespace: Option<Seq<char>>,
    pub provenance: Seq<char>,
    pub superseded_by: Option<FactId>,
    pub created_at: Seq<char>,
    pub updated_at: Seq<char>,
}

impl View for FactRow {
    type V = FactRowModel;

    open spec fn view(&self) -> FactRowModel {
        FactRowModel {
            id: self.id,
            name: self.name@,
            title: self.title@,
            body: self.body@,
            kind: self.kind,
            scope: self.scope,
            cardinality: self.cardinality,
            status: self.status,
            confidence: self.confidence,
            workspace_id: self.workspace_id,
            run_id: self.run_id,
            namespace: self.namespace.deep_view(),
            provenance: self.provenance@,
            superseded_by: self.superseded_by,
            created_at: self.created_at@,
            updated_at: self.updated_at@,
        }
    }
}

impl DeepView for FactRow {
    type V = FactRowModel;

    open spec fn deep_view(&self) -> FactRowModel {
        self@
    }
}

impl FactRow {
    /// A copy.
    pub fn dup(&self) -> (r: Self)
        ensures
            r@ == self@,
    {
        FactRow {
            id: self.id,
            name: copy_text(&self.name),
            title: copy_text(&self.title),
            body: copy_text(&self.body),
            kind: self.kind,
            scope: self.scope,
            cardinality: self.cardinality,
            status: self.status,
            confidence: self.confidence,
            workspace_id: self.workspace_id,
            run_id: self.run_id,
            namespace: copy_option(&self.namespace),
            provenance: copy_text(&self.provenance),
            superseded_by: self.superseded_by,
            created_at: copy_text(&self.created_at),
            updated_at: copy_text(&self.updated_at),
        }
    }
}

/// A copy of a list of facts.
pub fn copy_fact_row_list(list: &Vec<FactRow>) -> (r: Vec<FactRow>)
    ensures
        r.deep_view() == list.deep_view(),
{
    let mut r: Vec<FactRow> = Vec::new();
    let mut i: usize = 0;
    while i < list.len()
        invariant
            i <= list@.len(),
            r@.len() == i,
            forall|j: int| 0 <= j < i ==> r.deep_view()[j] == list.deep_view()[j],
        decreases list@.len() - i,
    {
        r.push(list[i].dup());
        i += 1;
    }
    assert(r.deep_view() =~= list.deep_view());
    r
}

/// What one fact was learned from.
#[derive(Debug, PartialEq, Eq)]
pub struct EvidenceRow {
    pub fact_id: FactId,
    pub locator: String,
    pub excerpt: Option<String>,
    pub created_at: String,
}

/// The contents of a [`EvidenceRow`].
#[verifier::ext_equal]
pub struct EvidenceRowModel {
    pub fact_id: FactId,
    pub locator: Seq<char>,
    pub excerpt: Option<Seq<char>>,
    pub created_at: Seq<char>,
}

impl View for EvidenceRow {
    type V = EvidenceRowModel;

    open spec fn view(&self) -> EvidenceRowModel {
        EvidenceRowModel {
            fact_id: self.fact_id,
            locator: self.locator@,
            excerpt: self.excerpt.deep_view(),
            created_at: self.created_at@,
        }
    }
}

impl DeepView for EvidenceRow {
    type V = EvidenceRowModel;

    open spec fn deep_view(&self) -> EvidenceRowModel {
        self@
    }
}

impl EvidenceRow {
    /// A copy.
    pub fn dup(&self) -> (r: Self)
        ensures
            r@ == self@,
    {
        EvidenceRow {
            fact_id: self.fact_id,
            locator: copy_text(&self.locator),
            excerpt: copy_option(&self.excerpt),
            created_at: copy_text(&self.created_at),
        }
    }
}

/// A copy of a list of evidence.
pub fn copy_evidence_row_list(list: &Vec<EvidenceRow>) -> (r: Vec<EvidenceRow>)
    ensures
        r.deep_view() == list.deep_view(),
{
    let mut r: Vec<EvidenceRow> = Vec::new();
    let mut i: usize = 0;
    while i < list.len()
        invariant
            i <= list@.len(),
            r@.len() == i,
            forall|j: int| 0 <= j < i ==> r.deep_view()[j] == list.deep_view()[j],
        decreases list@.len() - i,
    {
        r.push(list[i].dup());
        i += 1;
    }
    assert(r.deep_view() =~= list.deep_view());
    r
}

/// A link from one fact to a name.
#[derive(Debug, PartialEq, Eq)]
pub struct RelationRow {
    pub from_fact_id: FactId,
    pub to_name: String,
    pub predicate: RelationKind,
    pub created_at: String,
}

/// The contents of a [`RelationRow`].
#[verifier::ext_equal]
pub struct RelationRowModel {
    pub from_fact_id: FactId,
    pub to_name: Seq<char>,
    pub predicate: RelationKind,
    pub created_at: Seq<char>,
}

impl View for RelationRow {
    type V = RelationRowModel;

    open spec fn view(&self) -> RelationRowModel {
        RelationRowModel {
            from_fact_id: self.from_fact_id,
            to_name: self.to_name@,
            predicate: self.predicate,
            created_at: self.created_at@,
        }
    }
}

impl DeepView for RelationRow {
    type V = RelationRowModel;

    open spec fn deep_view(&self) -> RelationRowModel {
        self@
    }
}

impl RelationRow {
    /// A copy.
    pub fn dup(&self) -> (r: Self)
        ensures
            r@ == self@,
    {
        RelationRow {
            from_fact_id: self.from_fact_id,
            to_name: copy_text(&self.to_name),
            predicate: self.predicate,
            created_at: copy_text(&self.created_at),
        }
    }
}

/// A copy of a list of relations.
pub fn copy_relation_row_list(list: &Vec<RelationRow>) -> (r: Vec<RelationRow>)
    ensures
        r.deep_view() == list.deep_view(),
{
    let mut r: Vec<RelationRow> = Vec::new();
    let mut i: usize = 0;
    while i < list.len()
        invariant
            i <= list@.len(),
            r@.len() == i,
            forall|j: int| 0 <= j < i ==> r.deep_view()[j] == list.deep_view()[j],
        decreases list@.len() - i,
    {
        r.push(list[i].dup());
        i += 1;
    }
    assert(r.deep_view() =~= list.deep_view());
    r
}

/// A fact a session has been shown.
#[derive(Debug, PartialEq, Eq)]
pub struct PushRow {
    pub session: String,
    pub fact_id: FactId,
    pub pushed_at: String,
}

/// The contents of a [`PushRow`].
#[verifier::ext_equal]
pub struct PushRowModel {
    pub session: Seq<char>,
    pub fact_id: FactId,
    pub pushed_at: Seq<char>,
}

impl View for PushRow {
    type V = PushRowModel;

    open spec fn view(&self) -> PushRowModel {
        PushRowModel {
            session: self.session@,
            fact_id: self.fact_id,
            pushed_at: self.pushed_at@,
        }
    }
}

impl DeepView for PushRow {
    type V = PushRowModel;

    open spec fn deep_view(&self) -> PushRowModel {
        self@
    }
}

impl PushRow {
    /// A copy.
    pub fn dup(&self) -> (r: Self)
        ensures
            r@ == self@,
    {
        PushRow {
            session: copy_text(&self.session),
            fact_id: self.fact_id,
            pushed_at: copy_text(&self.pushed_at),
        }
    }
}

/// A copy of a list of pushes.
pub fn copy_push_row_list(list: &Vec<PushRow>) -> (r: Vec<PushRow>)
    ensures
        r.deep_view() == list.deep_view(),
{
    let mut r: Vec<PushRow> = Vec::new();
    let mut i: usize = 0;
    while i < list.len()
        invariant
            i <= list@.len(),
            r@.len() == i,
            forall|j: int| 0 <= j < i ==> r.deep_view()[j] == list.deep_view()[j],
        decreases list@.len() - i,
    {
        r.push(list[i].dup());
        i += 1;
    }
    assert(r.deep_view() =~= list.deep_view());
    r
}

/// A notice a session has been given.
#[derive(Debug, PartialEq, Eq)]
pub struct NoticeRow {
    pub session: String,
    pub kind: String,
    pub sent_at: String,
}

/// The contents of a [`NoticeRow`].
#[verifier::ext_equal]
pub struct NoticeRowModel {
    pub session: Seq<char>,
    pub kind: Seq<char>,
    pub sent_at: Seq<char>,
}

impl View for NoticeRow {
    type V = NoticeRowModel;

    open spec fn view(&self) -> NoticeRowModel {
        NoticeRowModel {
            session: self.session@,
            kind: self.kind@,
            sent_at: self.sent_at@,
        }
    }
}

impl DeepView for NoticeRow {
    type V = NoticeRowModel;

    open spec fn deep_view(&self) -> NoticeRowModel {
        self@
    }
}

impl NoticeRow {
    /// A copy.
    pub fn dup(&self) -> (r: Self)
        ensures
            r@ == self@,
    {
        NoticeRow {
            session: copy_text(&self.session),
            kind: copy_text(&self.kind),
            sent_at: copy_text(&self.sent_at),
        }
    }
}

/// A copy of a list of notices.
pub fn copy_notice_row_list(list: &Vec<NoticeRow>) -> (r: Vec<NoticeRow>)
    ensures
        r.deep_view() == list.deep_view(),
{
    let mut r: Vec<NoticeRow> = Vec::new();
    let mut i: usize = 0;
    while i < list.len()
        invariant
            i <= list@.len(),
            r@.len() == i,
            forall|j: int| 0 <= j < i ==> r.deep_view()[j] == list.deep_view()[j],
        decreases list@.len() - i,
    {
        r.push(list[i].dup());
        i += 1;
    }
    assert(r.deep_view() =~= list.deep_view());
    r
}

/// A subagent that did something under a session.
#[derive(Debug, PartialEq, Eq)]
pub struct AgentRow {
    pub id: String,
    pub session_id: SessionId,
    pub agent_type: Option<String>,
    pub started_at: String,
    pub ended_at: Option<String>,
}

/// The contents of a [`AgentRow`].
#[verifier::ext_equal]
pub struct AgentRowModel {
    pub id: Seq<char>,
    pub session_id: SessionId,
    pub agent_type: Option<Seq<char>>,
    pub started_at: Seq<char>,
    pub ended_at: Option<Seq<char>>,
}

impl View for AgentRow {
    type V = AgentRowModel;

    open spec fn view(&self) -> AgentRowModel {
        AgentRowModel {
            id: self.id@,
            session_id: self.session_id,
            agent_type: self.agent_type.deep_view(),
            started_at: self.started_at@,
            ended_at: self.ended_at.deep_view(),
        }
    }
}

impl DeepView for AgentRow {
    type V = AgentRowModel;

    open spec fn deep_view(&self) -> AgentRowModel {
        self@
    }
}

impl AgentRow {
    /// A copy.
    pub fn dup(&self) -> (r: Self)
        ensures
            r@ == self@,
    {
        AgentRow {
            id: copy_text(&self.id),
            session_id: self.session_id,
            agent_type: copy_option(&self.agent_type),
            started_at: copy_text(&self.started_at),
            ended_at: copy_option(&self.ended_at),
        }
    }
}

/// A copy of a list of agents.
pub fn copy_agent_row_list(list: &Vec<AgentRow>) -> (r: Vec<AgentRow>)
    ensures
        r.deep_view() == list.deep_view(),
{
    let mut r: Vec<AgentRow> = Vec::new();
    let mut i: usize = 0;
    while i < list.len()
        invariant
            i <= list@.len(),
            r@.len() == i,
            forall|j: int| 0 <= j < i ==> r.deep_view()[j] == list.deep_view()[j],
        decreases list@.len() - i,
    {
        r.push(list[i].dup());
        i += 1;
    }
    assert(r.deep_view() =~= list.deep_view());
    r
}

/// A repository a workspace reads but does not work in.
#[derive(Debug, PartialEq, Eq)]
pub struct DependencyRow {
    pub id: DependencyId,
    pub workspace_id: WorkspaceId,
    pub url: String,
    pub identity_key: String,
    pub git_ref: Option<String>,
    pub slug: String,
    pub status: DependencyStatus,
    pub revision: Option<String>,
    pub synced_at: Option<String>,
    pub last_error: Option<String>,
    pub created_at: String,
}

/// The contents of a [`DependencyRow`].
#[verifier::ext_equal]
pub struct DependencyRowModel {
    pub id: DependencyId,
    pub workspace_id: WorkspaceId,
    pub url: Seq<char>,
    pub identity_key: Seq<char>,
    pub git_ref: Option<Seq<char>>,
    pub slug: Seq<char>,
    pub status: DependencyStatus,
    pub revision: Option<Seq<char>>,
    pub synced_at: Option<Seq<char>>,
    pub last_error: Option<Seq<char>>,
    pub created_at: Seq<char>,
}

impl View for DependencyRow {
    type V = DependencyRowModel;

    open spec fn view(&self) -> DependencyRowModel {
        DependencyRowModel {
            id: self.id,
            workspace_id: self.workspace_id,
            url: self.url@,
            identity_key: self.identity_key@,
            git_ref: self.git_ref.deep_view(),
            slug: self.slug@,
            status: self.status,
            revision: self.revision.deep_view(),
            synced_at: self.synced_at.deep_view(),
            last_error: self.last_error.deep_view(),
            created_at: self.created_at@,
        }
    }
}

impl DeepView for DependencyRow {
    type V = DependencyRowModel;

    open spec fn deep_view(&self) -> DependencyRowModel {
        self@
    }
}

impl DependencyRow {
    /// A copy.
    pub fn dup(&self) -> (r: Self)
        ensures
            r@ == self@,
    {
        DependencyRow {
            id: self.id,
            workspace_id: self.workspace_id,
            url: copy_text(&self.url),
            identity_key: copy_text(&self.identity_key),
            git_ref: copy_option(&self.git_ref),
            slug: copy_text(&self.slug),
            status: self.status,
            revision: copy_option(&self.revision),
            synced_at: copy_option(&self.synced_at),
            last_error: copy_option(&self.last_error),
            created_at: copy_text(&self.created_at),
        }
    }
}

/// A copy of a list of dependencies.
pub fn copy_dependency_row_list(list: &Vec<DependencyRow>) -> (r: Vec<DependencyRow>)
    ensures
        r.deep_view() == list.deep_view(),
{
    let mut r: Vec<DependencyRow> = Vec::new();
    let mut i: usize = 0;
    while i < list.len()
        invariant
            i <= list@.len(),
            r@.len() == i,
            forall|j: int| 0 <= j < i ==> r.deep_view()[j] == list.deep_view()[j],
        decreases list@.len() - i,
    {
        r.push(list[i].dup());
        i += 1;
    }
    assert(r.deep_view() =~= list.deep_view());
    r
}

/// A change to the product.
#[derive(Debug, PartialEq, Eq)]
pub struct ChangeRow {
    pub id: ChangeId,
    pub workspace_id: WorkspaceId,
    pub namespace: Option<String>,
    pub slug: String,
    pub title: String,
    pub classification: Classification,
    pub skip_specs: bool,
    pub status: ChangeStatus,
    pub created_at: String,
    pub updated_at: String,
}

/// The contents of a [`ChangeRow`].
#[verifier::ext_equal]
pub struct ChangeRowModel {
    pub id: ChangeId,
    pub workspace_id: WorkspaceId,
    pub namespace: Option<Seq<char>>,
    pub slug: Seq<char>,
    pub title: Seq<char>,
    pub classification: Classification,
    pub skip_specs: bool,
    pub status: ChangeStatus,
    pub created_at: Seq<char>,
    pub updated_at: Seq<char>,
}

impl View for ChangeRow {
    type V = ChangeRowModel;

    open spec fn view(&self) -> ChangeRowModel {
        ChangeRowModel {
            id: self.id,
            workspace_id: self.workspace_id,
            namespace: self.namespace.deep_view(),
            slug: self.slug@,
            title: self.title@,
            classification: self.classification,
            skip_specs: self.skip_specs,
            status: self.status,
            created_at: self.created_at@,
            updated_at: self.updated_at@,
        }
    }
}

impl DeepView for ChangeRow {
    type V = ChangeRowModel;

    open spec fn deep_view(&self) -> ChangeRowModel {
        self@
    }
}

impl ChangeRow {
    /// A copy.
    pub fn dup(&self) -> (r: Self)
        ensures
            r@ == self@,
    {
        ChangeRow {
            id: self.id,
            workspace_id: self.workspace_id,
            namespace: copy_option(&self.namespace),
            slug: copy_text(&self.slug),
            title: copy_text(&self.title),
            classification: self.classification,
            skip_specs: self.skip_specs,
            status: self.status,
            created_at: copy_text(&self.created_at),
            updated_at: copy_text(&self.updated_at),
        }
    }
}

/// A copy of a list of changes.
pub fn copy_change_row_list(list: &Vec<ChangeRow>) -> (r: Vec<ChangeRow>)
    ensures
        r.deep_view() == list.deep_view(),
{
    let mut r: Vec<ChangeRow> = Vec::new();
    let mut i: usize = 0;
    while i < list.len()
        invariant
            i <= list@.len(),
            r@.len() == i,
            forall|j: int| 0 <= j < i ==> r.deep_view()[j] == list.deep_view()[j],
        decreases list@.len() - i,
    {
        r.push(list[i].dup());
        i += 1;
    }
    assert(r.deep_view() =~= list.deep_view());
    r
}

/// The proposal document of a change.
#[derive(Debug, PartialEq, Eq)]
pub struct ProposalRow {
    pub change_id: ChangeId,
    pub why: String,
    pub what_changes: Vec<String>,
    pub capabilities: Vec<String>,
    pub impact: Option<String>,
    pub created_at: String,
    pub updated_at: String,
}

/// The contents of a [`ProposalRow`].
#[verifier::ext_equal]
pub struct ProposalRowModel {
    pub change_id: ChangeId,
    pub why: Seq<char>,
    pub what_changes: Seq<Seq<char>>,
    pub capabilities: Seq<Seq<char>>,
    pub impact: Option<Seq<char>>,
    pub created_at: Seq<char>,
    pub updated_at: Seq<char>,
}

impl View for ProposalRow {
    type V = ProposalRowModel;

    open spec fn view(&self) -> ProposalRowModel {
        ProposalRowModel {
            change_id: self.change_id,
            why: self.why@,
            what_changes: self.what_changes.deep_view(),
            capabilities: self.capabilities.deep_view(),
            impact: self.impact.deep_view(),
            created_at: self.created_at@,
            updated_at: self.updated_at@,
        }
    }
}

impl DeepView for ProposalRow {
    type V = ProposalRowModel;

    open spec fn deep_view(&self) -> ProposalRowModel {
        self@
    }
}

impl ProposalRow {
    /// A copy.
    pub fn dup(&self) -> (r: Self)
        ensures
            r@ == self@,
    {
        ProposalRow {
            change_id: self.change_id,
            why: copy_text(&self.why),
            what_changes: copy_list(&self.what_changes),
            capabilities: copy_list(&self.capabilities),
            impact: copy_option(&self.impact),
            created_at: copy_text(&self.created_at),
            updated_at: copy_text(&self.updated_at),
        }
    }
}

/// A copy of a list of proposals.
pub fn copy_proposal_row_list(list: &Vec<ProposalRow>) -> (r: Vec<ProposalRow>)
    ensures
        r.deep_view() == list.deep_view(),
{
    let mut r: Vec<ProposalRow> = Vec::new();
    let mut i: usize = 0;
    while i < list.len()
        invariant
            i <= list@.len(),
            r@.len() == i,
            forall|j: int| 0 <= j < i ==> r.deep_view()[j] == list.deep_view()[j],
        decreases list@.len() - i,
    {
        r.push(list[i].dup());
        i += 1;
    }
    assert(r.deep_view() =~= list.deep_view());
    r
}

/// A spec delta a change has written for a capability.
#[derive(Debug, PartialEq, Eq)]
pub struct DeltaRow {
    pub change_id: ChangeId,
    pub capability_path: String,
}

/// The contents of a [`DeltaRow`].
#[verifier::ext_equal]
pub struct DeltaRowModel {
    pub change_id: ChangeId,
    pub capability_path: Seq<char>,
}

impl View for DeltaRow {
    type V = DeltaRowModel;

    open spec fn view(&self) -> DeltaRowModel {
        DeltaRowModel {
            change_id: self.change_id,
            capability_path: self.capability_path@,
        }
    }
}

impl DeepView for DeltaRow {
    type V = DeltaRowModel;

    open spec fn deep_view(&self) -> DeltaRowModel {
        self@
    }
}

impl DeltaRow {
    /// A copy.
    pub fn dup(&self) -> (r: Self)
        ensures
            r@ == self@,
    {
        DeltaRow {
            change_id: self.change_id,
            capability_path: copy_text(&self.capability_path),
        }
    }
}

/// A copy of a list of deltas.
pub fn copy_delta_row_list(list: &Vec<DeltaRow>) -> (r: Vec<DeltaRow>)
    ensures
        r.deep_view() == list.deep_view(),
{
    let mut r: Vec<DeltaRow> = Vec::new();
    let mut i: usize = 0;
    while i < list.len()
        invariant
            i <= list@.len(),
            r@.len() == i,
            forall|j: int| 0 <= j < i ==> r.deep_view()[j] == list.deep_view()[j],
        decreases list@.len() - i,
    {
        r.push(list[i].dup());
        i += 1;
    }
    assert(r.deep_view() =~= list.deep_view());
    r
}

/// One task of a plan.
#[derive(Debug, PartialEq, Eq)]
pub struct TaskRow {
    pub id: TaskId,
    pub change_id: ChangeId,
    pub number: String,
    /// The paths the task declares, as a JSON list.
    pub files_json: String,
    pub verify_command: String,
    /// The markers the plan expects in the output, as a JSON list.
    pub expected_output_json: String,
    pub status: TaskStatus,
    pub evidence: Option<String>,
    pub verified_at: Option<String>,
    pub claimed_by: Option<SessionId>,
    pub lease_until: Option<String>,
    pub updated_at: String,
}

/// The contents of a [`TaskRow`].
#[verifier::ext_equal]
pub struct TaskRowModel {
    pub id: TaskId,
    pub change_id: ChangeId,
    pub number: Seq<char>,
    pub files_json: Seq<char>,
    pub verify_command: Seq<char>,
    pub expected_output_json: Seq<char>,
    pub status: TaskStatus,
    pub evidence: Option<Seq<char>>,
    pub verified_at: Option<Seq<char>>,
    pub claimed_by: Option<SessionId>,
    pub lease_until: Option<Seq<char>>,
    pub updated_at: Seq<char>,
}

impl View for TaskRow {
    type V = TaskRowModel;

    open spec fn view(&self) -> TaskRowModel {
        TaskRowModel {
            id: self.id,
            change_id: self.change_id,
            number: self.number@,
            files_json: self.files_json@,
            verify_command: self.verify_command@,
            expected_output_json: self.expected_output_json@,
            status: self.status,
            evidence: self.evidence.deep_view(),
            verified_at: self.verified_at.deep_view(),
            claimed_by: self.claimed_by,
            lease_until: self.lease_until.deep_view(),
            updated_at: self.updated_at@,
        }
    }
}

impl DeepView for TaskRow {
    type V = TaskRowModel;

    open spec fn deep_view(&self) -> TaskRowModel {
        self@
    }
}

impl TaskRow {
    /// A copy.
    pub fn dup(&self) -> (r: Self)
        ensures
            r@ == self@,
    {
        TaskRow {
            id: self.id,
            change_id: self.change_id,
            number: copy_text(&self.number),
            files_json: copy_text(&self.files_json),
            verify_command: copy_text(&self.verify_command),
            expected_output_json: copy_text(&self.expected_output_json),
            status: self.status,
            evidence: copy_option(&self.evidence),
            verified_at: copy_option(&self.verified_at),
            claimed_by: self.claimed_by,
            lease_until: copy_option(&self.lease_until),
            updated_at: copy_text(&self.updated_at),
        }
    }
}

/// A copy of a list of tasks.
pub fn copy_task_row_list(list: &Vec<TaskRow>) -> (r: Vec<TaskRow>)
    ensures
        r.deep_view() == list.deep_view(),
{
    let mut r: Vec<TaskRow> = Vec::new();
    let mut i: usize = 0;
    while i < list.len()
        invariant
            i <= list@.len(),
            r@.len() == i,
            forall|j: int| 0 <= j < i ==> r.deep_view()[j] == list.deep_view()[j],
        decreases list@.len() - i,
    {
        r.push(list[i].dup());
        i += 1;
    }
    assert(r.deep_view() =~= list.deep_view());
    r
}

/// A tick, kept where a new plan cannot reach it.
#[derive(Debug, PartialEq, Eq)]
pub struct TickRow {
    pub change_id: ChangeId,
    pub number: String,
    pub verify_command: String,
    pub output: String,
    /// The markers the output did not carry, as a JSON list.
    pub missing_json: String,
    pub run_id: RunId,
    pub created_at: String,
}

/// The contents of a [`TickRow`].
#[verifier::ext_equal]
pub struct TickRowModel {
    pub change_id: ChangeId,
    pub number: Seq<char>,
    pub verify_command: Seq<char>,
    pub output: Seq<char>,
    pub missing_json: Seq<char>,
    pub run_id: RunId,
    pub created_at: Seq<char>,
}

impl View for TickRow {
    type V = TickRowModel;

    open spec fn view(&self) -> TickRowModel {
        TickRowModel {
            change_id: self.change_id,
            number: self.number@,
            verify_command: self.verify_command@,
            output: self.output@,
            missing_json: self.missing_json@,
            run_id: self.run_id,
            created_at: self.created_at@,
        }
    }
}

impl DeepView for TickRow {
    type V = TickRowModel;

    open spec fn deep_view(&self) -> TickRowModel {
        self@
    }
}

impl TickRow {
    /// A copy.
    pub fn dup(&self) -> (r: Self)
        ensures
            r@ == self@,
    {
        TickRow {
            change_id: self.change_id,
            number: copy_text(&self.number),
            verify_command: copy_text(&self.verify_command),
            output: copy_text(&self.output),
            missing_json: copy_text(&self.missing_json),
            run_id: self.run_id,
            created_at: copy_text(&self.created_at),
        }
    }
}

/// A copy of a list of ticks.
pub fn copy_tick_row_list(list: &Vec<TickRow>) -> (r: Vec<TickRow>)
    ensures
        r.deep_view() == list.deep_view(),
{
    let mut r: Vec<TickRow> = Vec::new();
    let mut i: usize = 0;
    while i < list.len()
        invariant
            i <= list@.len(),
            r@.len() == i,
            forall|j: int| 0 <= j < i ==> r.deep_view()[j] == list.deep_view()[j],
        decreases list@.len() - i,
    {
        r.push(list[i].dup());
        i += 1;
    }
    assert(r.deep_view() =~= list.deep_view());
    r
}

/// The durable store: every table, in memory.
pub struct Store {
    pub workspaces: Vec<WorkspaceRow>,
    pub repositories: Vec<RepositoryRow>,
    pub runs: Vec<RunRecord>,
    pub sessions: Vec<SessionRow>,
    pub checkpoints: Vec<CheckpointRow>,
    pub operations: Vec<OperationRow>,
    pub ledger: Vec<LedgerRow>,
    pub jobs: Vec<JobRow>,
    pub facts: Vec<FactRow>,
    pub evidence: Vec<EvidenceRow>,
    pub relations: Vec<RelationRow>,
    pub pushes: Vec<PushRow>,
    pub notices: Vec<NoticeRow>,
    pub agents: Vec<AgentRow>,
    pub dependencies: Vec<DependencyRow>,
    pub changes: Vec<ChangeRow>,
    pub proposals: Vec<ProposalRow>,
    pub deltas: Vec<DeltaRow>,
    pub tasks: Vec<TaskRow>,
    pub ticks: Vec<TickRow>,
}

/// The contents of a [`Store`].
#[verifier::ext_equal]
pub struct StoreModel {
    pub workspaces: Seq<WorkspaceRowModel>,
    pub repositories: Seq<RepositoryRowModel>,
    pub runs: Seq<RunRecordModel>,
    pub sessions: Seq<SessionRowModel>,
    pub checkpoints: Seq<CheckpointRowModel>,
    pub operations: Seq<OperationRowModel>,
    pub ledger: Seq<LedgerRowModel>,
    pub jobs: Seq<JobRowModel>,
    pub facts: Seq<FactRowModel>,
    pub evidence: Seq<EvidenceRowModel>,
    pub relations: Seq<RelationRowModel>,
    pub pushes: Seq<PushRowModel>,
    pub notices: Seq<NoticeRowModel>,
    pub agents: Seq<AgentRowModel>,
    pub dependencies: Seq<DependencyRowModel>,
    pub changes: Seq<ChangeRowModel>,
    pub proposals: Seq<ProposalRowModel>,
    pub deltas: Seq<DeltaRowModel>,
    pub tasks: Seq<TaskRowModel>,
    pub ticks: Seq<TickRowModel>,
}

impl View for Store {
    type V = StoreModel;

    open spec fn view(&self) -> StoreModel {
        StoreModel {
            workspaces: self.workspaces.deep_view(),
            repositories: self.repositories.deep_view(),
            runs: self.runs.deep_view(),
            sessions: self.sessions.deep_view(),
            checkpoints: self.checkpoints.deep_view(),
            operations: self.operations.deep_view(),
            ledger: self.ledger.deep_view(),
            jobs: self.jobs.deep_view(),
            facts: self.facts.deep_view(),
            evidence: self.evidence.deep_view(),
            relations: self.relations.deep_view(),
            pushes: self.pushes.deep_view(),
            notices: self.notices.deep_view(),
            agents: self.agents.deep_view(),
            dependencies: self.dependencies.deep_view(),
            changes: self.changes.deep_view(),
            proposals: self.proposals.deep_view(),
            deltas: self.deltas.deep_view(),
            tasks: self.tasks.deep_view(),
            ticks: self.ticks.deep_view(),
        }
    }
}

/// A store with nothing in it.
pub open spec fn empty_store() -> StoreModel {
    StoreModel {
        workspaces: Seq::empty(),
        repositories: Seq::empty(),
        runs: Seq::empty(),
        sessions: Seq::empty(),
        checkpoints: Seq::empty(),
        operations: Seq::empty(),
        ledger: Seq::empty(),
        jobs: Seq::empty(),
        facts: Seq::empty(),
        evidence: Seq::empty(),
        relations: Seq::empty(),
        pushes: Seq::empty(),
        notices: Seq::empty(),
        agents: Seq::empty(),
        dependencies: Seq::empty(),
        changes: Seq::empty(),
        proposals: Seq::empty(),
        deltas: Seq::empty(),
        tasks: Seq::empty(),
        ticks: Seq::empty(),
    }
}

impl Store {
    /// A store with nothing in it.
    pub fn new() -> (r: Self)
        ensures
            r@ == empty_store(),
            r@.well_formed(),
    {
        let r = Store {
            workspaces: Vec::new(),
            repositories: Vec::new(),
            runs: Vec::new(),
            sessions: Vec::new(),
            checkpoints: Vec::new(),
            operations: Vec::new(),
            ledger: Vec::new(),
            jobs: Vec::new(),
            facts: Vec::new(),
            evidence: Vec::new(),
            relations: Vec::new(),
            pushes: Vec::new(),
            notices: Vec::new(),
            agents: Vec::new(),
            dependencies: Vec::new(),
            changes: Vec::new(),
            proposals: Vec::new(),
            deltas: Vec::new(),
            tasks: Vec::new(),
            ticks: Vec::new(),
        };
        assert(r@ =~= empty_store());
        r
    }

    /// A copy of the whole store, to go back to when an operation fails.
    pub fn dup(&self) -> (r: Self)
        ensures
            r@ == self@,
    {
        Store {
            workspaces: copy_workspace_row_list(&self.workspaces),
            repositories: copy_repository_row_list(&self.repositories),
            runs: copy_run_record_list(&self.runs),
            sessions: copy_session_row_list(&self.sessions),
            checkpoints: copy_checkpoint_row_list(&self.checkpoints),
            operations: copy_operation_row_list(&self.operations),
            ledger: copy_ledger_row_list(&self.ledger),
            jobs: copy_job_row_list(&self.jobs),
            facts: copy_fact_row_list(&self.facts),
            evidence: copy_evidence_row_list(&self.evidence),
            relations: copy_relation_row_list(&self.relations),
            pushes: copy_push_row_list(&self.pushes),
            notices: copy_notice_row_list(&self.notices),
            agents: copy_agent_row_list(&self.agents),
            dependencies: copy_dependency_row_list(&self.dependencies),
            changes: copy_change_row_list(&self.changes),
            proposals: copy_proposal_row_list(&self.proposals),
            deltas: copy_delta_row_list(&self.deltas),
            tasks: copy_task_row_list(&self.tasks),
            ticks: copy_tick_row_list(&self.ticks),
        }
    }
}

// --- what always holds -----------------------------------------------------

/// Workspaces with different identifiers each, and different names where somebody named
/// them.
pub open spec fn workspaces_differ(rows: Seq<WorkspaceRowModel>) -> bool {
    forall|i: int, j: int|
        0 <= i < j < rows.len() ==> (#[trigger] rows[i]).id != (#[trigger] rows[j]).id && (
        rows[i].explicit && rows[j].explicit ==> rows[i].name != rows[j].name)
}

/// Repositories with different identifiers and identities each.
pub open spec fn repositories_differ(rows: Seq<RepositoryRowModel>) -> bool {
    forall|i: int, j: int|
        0 <= i < j < rows.len() ==> (#[trigger] rows[i]).id != (#[trigger] rows[j]).id
            && rows[i].identity_key != rows[j].identity_key
}

/// Every repository that is filed under a path is filed under its own.
pub open spec fn filed_where_they_are(repositories: Seq<RepositoryRowModel>) -> bool {
    forall|i: int|
        0 <= i < repositories.len() && "path:"@.is_prefix_of(
            (#[trigger] repositories[i]).identity_key,
        ) ==> repositories[i].identity_key == "path:"@ + repositories[i].canonical_root
}

/// Runs with different identifiers each.
pub open spec fn runs_differ(rows: Seq<RunRecordModel>) -> bool {
    forall|i: int, j: int|
        0 <= i < j < rows.len() ==> (#[trigger] rows[i]).id != (#[trigger] rows[j]).id
}

/// Sessions with different identifiers each.
pub open spec fn sessions_differ(rows: Seq<SessionRowModel>) -> bool {
    forall|i: int, j: int|
        0 <= i < j < rows.len() ==> (#[trigger] rows[i]).id != (#[trigger] rows[j]).id
}

/// Checkpoints with different identifiers each.
pub open spec fn checkpoints_differ(rows: Seq<CheckpointRowModel>) -> bool {
    forall|i: int, j: int|
        0 <= i < j < rows.len() ==> (#[trigger] rows[i]).id != (#[trigger] rows[j]).id
}

/// Operations with different identifiers each.
pub open spec fn operations_differ(rows: Seq<OperationRowModel>) -> bool {
    forall|i: int, j: int|
        0 <= i < j < rows.len() ==> (#[trigger] rows[i]).id != (#[trigger] rows[j]).id
}

/// Jobs each of which is a piece of work of its own.
pub open spec fn jobs_differ(rows: Seq<JobRowModel>) -> bool {
    forall|i: int, j: int|
        0 <= i < j < rows.len() ==> (#[trigger] rows[i]).kind != (#[trigger] rows[j]).kind
            || rows[i].job_key != rows[j].job_key
}

/// Facts with different identifiers each.
pub open spec fn facts_differ(rows: Seq<FactRowModel>) -> bool {
    forall|i: int, j: int|
        0 <= i < j < rows.len() ==> (#[trigger] rows[i]).id != (#[trigger] rows[j]).id
}

/// Records each of which is of another session or fact.
pub open spec fn pushes_differ(rows: Seq<PushRowModel>) -> bool {
    forall|i: int, j: int|
        0 <= i < j < rows.len() ==> (#[trigger] rows[i]).session != (#[trigger] rows[j]).session
            || rows[i].fact_id != rows[j].fact_id
}

/// Notices each of which is of another session or kind.
pub open spec fn notices_differ(rows: Seq<NoticeRowModel>) -> bool {
    forall|i: int, j: int|
        0 <= i < j < rows.len() ==> (#[trigger] rows[i]).session != (#[trigger] rows[j]).session
            || rows[i].kind != rows[j].kind
}

/// Agents with different identifiers each.
pub open spec fn agents_differ(rows: Seq<AgentRowModel>) -> bool {
    forall|i: int, j: int|
        0 <= i < j < rows.len() ==> (#[trigger] rows[i]).id != (#[trigger] rows[j]).id
}

/// Dependencies with different identifiers each, no two of which are one checkout.
pub open spec fn dependencies_differ(rows: Seq<DependencyRowModel>) -> bool {
    forall|i: int, j: int|
        0 <= i < j < rows.len() ==> (#[trigger] rows[i]).id != (#[trigger] rows[j]).id
            && !one_checkout(rows[i], rows[j])
}

/// Changes with different identifiers each, no two of which in flight have one slug.
pub open spec fn changes_differ(rows: Seq<ChangeRowModel>) -> bool {
    forall|i: int, j: int|
        0 <= i < j < rows.len() ==> (#[trigger] rows[i]).id != (#[trigger] rows[j]).id && !(
        live_status(rows[i].status) && live_status(rows[j].status) && one_slug(rows[i], rows[j]))
}

/// Tasks with different identifiers each.
pub open spec fn tasks_differ(rows: Seq<TaskRowModel>) -> bool {
    forall|i: int, j: int|
        0 <= i < j < rows.len() ==> (#[trigger] rows[i]).id != (#[trigger] rows[j]).id
}

impl StoreModel {
    /// No two rows of a table share what identifies them, and every recorded response is of
    /// the kind its request asks for.
    pub open spec fn well_formed(self) -> bool {
        &&& workspaces_differ(self.workspaces)
        &&& repositories_differ(self.repositories)
        &&& filed_where_they_are(self.repositories)
        &&& runs_differ(self.runs)
        &&& sessions_differ(self.sessions)
        &&& checkpoints_differ(self.checkpoints)
        &&& operations_differ(self.operations)
        &&& jobs_differ(self.jobs)
        &&& facts_differ(self.facts)
        &&& pushes_differ(self.pushes)
        &&& notices_differ(self.notices)
        &&& agents_differ(self.agents)
        &&& dependencies_differ(self.dependencies)
        &&& changes_differ(self.changes)
        &&& tasks_differ(self.tasks)
        &&& forall|i: int| 0 <= i < self.operations.len() ==> answers(
            #[trigger] self.operations[i],
        )
    }
}

/// Standing for the same project at the same ref in one workspace.
pub open spec fn one_checkout(a: DependencyRowModel, b: DependencyRowModel) -> bool {
    a.workspace_id == b.workspace_id && a.identity_key == b.identity_key && ref_key(a.git_ref)
        == ref_key(b.git_ref)
}

/// Having the same slug in one workspace and namespace.
pub open spec fn one_slug(a: ChangeRowModel, b: ChangeRowModel) -> bool {
    a.workspace_id == b.workspace_id && a.namespace == b.namespace && a.slug == b.slug
}

/// A recorded response is of the kind its request asks for.
pub open spec fn answers(row: OperationRowModel) -> bool {
    match row.request {
        RequestModel::StartRun(_) => row.response is StartRun,
        RequestModel::Checkpoint(_) => row.response is Checkpoint,
        RequestModel::Finish(_) => row.response is Finish,
        RequestModel::Remember(_) => row.response is Remember,
        RequestModel::Propose(_) => row.response is Propose,
    }
}

} // verus!
