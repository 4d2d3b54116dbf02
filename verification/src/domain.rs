//! What callers ask of the store, and what it answers.

use vstd::prelude::*;

use crate::ids::{ChangeId, CheckpointId, FactId, OperationId, RunId, SessionId, WorkspaceId};
use crate::moment::Moment;
use crate::states::{
    Cardinality, ChangeStatus, CheckpointOrigin, Classification, FactKind, FactScope, FactStatus,
    FinishAction, RelationKind, RunStatus, WorkflowStage,
};
use crate::text::{copy_list, copy_option, copy_text, same, same_list, same_option};

verus! {

/// Whether two optional runs are the same.
pub fn same_run_id(a: Option<RunId>, b: Option<RunId>) -> (r: bool)
    ensures
        r == (a == b),
{
    match (a, b) {
        (Some(x), Some(y)) => x == y,
        (None, None) => true,
        _ => false,
    }
}

/// A copy of the links of a fact.
pub fn copy_links(list: &Vec<(String, RelationKind)>) -> (r: Vec<(String, RelationKind)>)
    ensures
        r.deep_view() == list.deep_view(),
{
    let mut r: Vec<(String, RelationKind)> = Vec::new();
    let mut i: usize = 0;
    while i < list.len()
        invariant
            i <= list@.len(),
            r@.len() == i,
            forall|j: int| 0 <= j < i ==> r.deep_view()[j] == list.deep_view()[j],
        decreases list@.len() - i,
    {
        r.push((list[i].0.clone(), list[i].1));
        i += 1;
    }
    assert(r.deep_view() =~= list.deep_view());
    r
}

/// Whether two lists hold the same links in the same order.
pub fn same_links(a: &Vec<(String, RelationKind)>, b: &Vec<(String, RelationKind)>) -> (r: bool)
    ensures
        r == (a.deep_view() == b.deep_view()),
{
    if a.len() != b.len() {
        assert(a.deep_view().len() != b.deep_view().len());
        return false;
    }
    let mut i: usize = 0;
    while i < a.len()
        invariant
            i <= a@.len(),
            a@.len() == b@.len(),
            forall|j: int| 0 <= j < i ==> a.deep_view()[j] == b.deep_view()[j],
        decreases a@.len() - i,
    {
        if !same(a[i].0.as_str(), b[i].0.as_str()) || a[i].1 != b[i].1 {
            assert(a.deep_view()[i as int] != b.deep_view()[i as int]);
            return false;
        }
        i += 1;
    }
    assert(a.deep_view() =~= b.deep_view());
    true
}

// --- runs ------------------------------------------------------------------

/// The change and the task a run is executing.
#[derive(Debug, PartialEq, Eq)]
pub struct SpecBinding {
    /// The slug of the change.
    pub change_id: Option<String>,
    /// What is being worked on, in free words.
    pub current_task: Option<String>,
}

/// The contents of a [`SpecBinding`].
#[verifier::ext_equal]
pub struct SpecBindingModel {
    pub change_id: Option<Seq<char>>,
    pub current_task: Option<Seq<char>>,
}

impl View for SpecBinding {
    type V = SpecBindingModel;

    open spec fn view(&self) -> SpecBindingModel {
        SpecBindingModel {
            change_id: self.change_id.deep_view(),
            current_task: self.current_task.deep_view(),
        }
    }
}

impl DeepView for SpecBinding {
    type V = SpecBindingModel;

    open spec fn deep_view(&self) -> SpecBindingModel {
        self@
    }
}

impl SpecBinding {
    /// A copy.
    pub fn dup(&self) -> (r: Self)
        ensures
            r@ == self@,
    {
        SpecBinding {
            change_id: copy_option(&self.change_id),
            current_task: copy_option(&self.current_task),
        }
    }

    /// Whether two hold the same contents.
    pub fn same(&self, other: &Self) -> (r: bool)
        ensures
            r == (self@ == other@),
    {
        same_option(&self.change_id, &other.change_id)
            && same_option(&self.current_task, &other.current_task)
    }
}

/// A tick: one task of the plan, and the proof that it was done.
#[derive(Debug, PartialEq, Eq)]
pub struct TaskDone {
    pub number: String,
    /// The command that was run.
    pub verify_command: String,
    /// What it printed.
    pub output: String,
}

/// The contents of a [`TaskDone`].
#[verifier::ext_equal]
pub struct TaskDoneModel {
    pub number: Seq<char>,
    pub verify_command: Seq<char>,
    pub output: Seq<char>,
}

impl View for TaskDone {
    type V = TaskDoneModel;

    open spec fn view(&self) -> TaskDoneModel {
        TaskDoneModel {
            number: self.number@,
            verify_command: self.verify_command@,
            output: self.output@,
        }
    }
}

impl DeepView for TaskDone {
    type V = TaskDoneModel;

    open spec fn deep_view(&self) -> TaskDoneModel {
        self@
    }
}

impl TaskDone {
    /// A copy.
    pub fn dup(&self) -> (r: Self)
        ensures
            r@ == self@,
    {
        TaskDone {
            number: copy_text(&self.number),
            verify_command: copy_text(&self.verify_command),
            output: copy_text(&self.output),
        }
    }

    /// Whether two hold the same contents.
    pub fn same(&self, other: &Self) -> (r: bool)
        ensures
            r == (self@ == other@),
    {
        same(self.number.as_str(), other.number.as_str())
            && same(self.verify_command.as_str(), other.verify_command.as_str())
            && same(self.output.as_str(), other.output.as_str())
    }
}

/// What a tick did.
#[derive(Debug, PartialEq, Eq)]
pub struct TaskClosed {
    pub number: String,
    /// The markers the plan expected and the output does not carry.
    pub expected_output_missing: Vec<String>,
    /// True when no task of the plan is open any more.
    pub change_ready: bool,
}

/// The contents of a [`TaskClosed`].
#[verifier::ext_equal]
pub struct TaskClosedModel {
    pub number: Seq<char>,
    pub expected_output_missing: Seq<Seq<char>>,
    pub change_ready: bool,
}

impl View for TaskClosed {
    type V = TaskClosedModel;

    open spec fn view(&self) -> TaskClosedModel {
        TaskClosedModel {
            number: self.number@,
            expected_output_missing: self.expected_output_missing.deep_view(),
            change_ready: self.change_ready,
        }
    }
}

impl DeepView for TaskClosed {
    type V = TaskClosedModel;

    open spec fn deep_view(&self) -> TaskClosedModel {
        self@
    }
}

impl TaskClosed {
    /// A copy.
    pub fn dup(&self) -> (r: Self)
        ensures
            r@ == self@,
    {
        TaskClosed {
            number: copy_text(&self.number),
            expected_output_missing: copy_list(&self.expected_output_missing),
            change_ready: self.change_ready,
        }
    }
}

/// Opens a run, or attaches a new session to one.
#[derive(Debug, PartialEq, Eq)]
pub struct StartRunCommand {
    pub operation_id: OperationId,
    pub task: String,
    pub resume_run_id: Option<RunId>,
    pub external_session_hint: Option<String>,
    pub workspace_roots: Vec<String>,
}

/// The contents of a [`StartRunCommand`].
#[verifier::ext_equal]
pub struct StartRunCommandModel {
    pub operation_id: OperationId,
    pub task: Seq<char>,
    pub resume_run_id: Option<RunId>,
    pub external_session_hint: Option<Seq<char>>,
    pub workspace_roots: Seq<Seq<char>>,
}

impl View for StartRunCommand {
    type V = StartRunCommandModel;

    open spec fn view(&self) -> StartRunCommandModel {
        StartRunCommandModel {
            operation_id: self.operation_id,
            task: self.task@,
            resume_run_id: self.resume_run_id,
            external_session_hint: self.external_session_hint.deep_view(),
            workspace_roots: self.workspace_roots.deep_view(),
        }
    }
}

impl DeepView for StartRunCommand {
    type V = StartRunCommandModel;

    open spec fn deep_view(&self) -> StartRunCommandModel {
        self@
    }
}

impl StartRunCommand {
    /// A copy.
    pub fn dup(&self) -> (r: Self)
        ensures
            r@ == self@,
    {
        StartRunCommand {
            operation_id: self.operation_id,
            task: copy_text(&self.task),
            resume_run_id: self.resume_run_id,
            external_session_hint: copy_option(&self.external_session_hint),
            workspace_roots: copy_list(&self.workspace_roots),
        }
    }

    /// Whether two hold the same contents.
    pub fn same(&self, other: &Self) -> (r: bool)
        ensures
            r == (self@ == other@),
    {
        self.operation_id == other.operation_id
            && same(self.task.as_str(), other.task.as_str())
            && same_run_id(self.resume_run_id, other.resume_run_id)
            && same_option(&self.external_session_hint, &other.external_session_hint)
            && same_list(&self.workspace_roots, &other.workspace_roots)
    }
}

/// Where the work stands, written down so that it can be picked up again.
#[derive(Debug, PartialEq, Eq)]
pub struct CheckpointCommand {
    pub operation_id: OperationId,
    pub run_id: RunId,
    pub session_id: SessionId,
    pub stage: WorkflowStage,
    pub origin: CheckpointOrigin,
    pub completed_steps: Vec<String>,
    pub next_steps: Vec<String>,
    pub decisions: Vec<String>,
    pub rejected: Vec<String>,
    pub changed_files: Vec<String>,
    pub verification: Vec<String>,
    pub risks: Vec<String>,
    pub handoff_summary: String,
    pub task_done: Option<TaskDone>,
    pub binding: Option<SpecBinding>,
}

/// The contents of a [`CheckpointCommand`].
#[verifier::ext_equal]
pub struct CheckpointCommandModel {
    pub operation_id: OperationId,
    pub run_id: RunId,
    pub session_id: SessionId,
    pub stage: WorkflowStage,
    pub origin: CheckpointOrigin,
    pub completed_steps: Seq<Seq<char>>,
    pub next_steps: Seq<Seq<char>>,
    pub decisions: Seq<Seq<char>>,
    pub rejected: Seq<Seq<char>>,
    pub changed_files: Seq<Seq<char>>,
    pub verification: Seq<Seq<char>>,
    pub risks: Seq<Seq<char>>,
    pub handoff_summary: Seq<char>,
    pub task_done: Option<TaskDoneModel>,
    pub binding: Option<SpecBindingModel>,
}

impl View for CheckpointCommand {
    type V = CheckpointCommandModel;

    open spec fn view(&self) -> CheckpointCommandModel {
        CheckpointCommandModel {
            operation_id: self.operation_id,
            run_id: self.run_id,
            session_id: self.session_id,
            stage: self.stage,
            origin: self.origin,
            completed_steps: self.completed_steps.deep_view(),
            next_steps: self.next_steps.deep_view(),
            decisions: self.decisions.deep_view(),
            rejected: self.rejected.deep_view(),
            changed_files: self.changed_files.deep_view(),
            verification: self.verification.deep_view(),
            risks: self.risks.deep_view(),
            handoff_summary: self.handoff_summary@,
            task_done: self.task_done.deep_view(),
            binding: self.binding.deep_view(),
        }
    }
}

impl DeepView for CheckpointCommand {
    type V = CheckpointCommandModel;

    open spec fn deep_view(&self) -> CheckpointCommandModel {
        self@
    }
}

impl CheckpointCommand {
    /// A copy.
    pub fn dup(&self) -> (r: Self)
        ensures
            r@ == self@,
    {
        CheckpointCommand {
            operation_id: self.operation_id,
            run_id: self.run_id,
            session_id: self.session_id,
            stage: self.stage,
            origin: self.origin,
            completed_steps: copy_list(&self.completed_steps),
            next_steps: copy_list(&self.next_steps),
            decisions: copy_list(&self.decisions),
            rejected: copy_list(&self.rejected),
            changed_files: copy_list(&self.changed_files),
            verification: copy_list(&self.verification),
            risks: copy_list(&self.risks),
            handoff_summary: copy_text(&self.handoff_summary),
            task_done: match &self.task_done { Some(inner) => Some(inner.dup()), None => None },
            binding: match &self.binding { Some(inner) => Some(inner.dup()), None => None },
        }
    }

    /// Whether two hold the same contents.
    pub fn same(&self, other: &Self) -> (r: bool)
        ensures
            r == (self@ == other@),
    {
        self.operation_id == other.operation_id
            && self.run_id == other.run_id
            && self.session_id == other.session_id
            && self.stage == other.stage
            && self.origin == other.origin
            && same_list(&self.completed_steps, &other.completed_steps)
            && same_list(&self.next_steps, &other.next_steps)
            && same_list(&self.decisions, &other.decisions)
            && same_list(&self.rejected, &other.rejected)
            && same_list(&self.changed_files, &other.changed_files)
            && same_list(&self.verification, &other.verification)
            && same_list(&self.risks, &other.risks)
            && same(self.handoff_summary.as_str(), other.handoff_summary.as_str())
            && (match (&self.task_done, &other.task_done) {
                (Some(a), Some(b)) => a.same(b),
                (None, None) => true,
                _ => false,
            })
            && (match (&self.binding, &other.binding) {
                (Some(a), Some(b)) => a.same(b),
                (None, None) => true,
                _ => false,
            })
    }
}

/// Ends a session, or completes its run.
#[derive(Debug, PartialEq, Eq)]
pub struct FinishRunCommand {
    pub operation_id: OperationId,
    pub run_id: RunId,
    pub session_id: SessionId,
    pub action: FinishAction,
    pub outcome: String,
}

/// The contents of a [`FinishRunCommand`].
#[verifier::ext_equal]
pub struct FinishRunCommandModel {
    pub operation_id: OperationId,
    pub run_id: RunId,
    pub session_id: SessionId,
    pub action: FinishAction,
    pub outcome: Seq<char>,
}

impl View for FinishRunCommand {
    type V = FinishRunCommandModel;

    open spec fn view(&self) -> FinishRunCommandModel {
        FinishRunCommandModel {
            operation_id: self.operation_id,
            run_id: self.run_id,
            session_id: self.session_id,
            action: self.action,
            outcome: self.outcome@,
        }
    }
}

impl DeepView for FinishRunCommand {
    type V = FinishRunCommandModel;

    open spec fn deep_view(&self) -> FinishRunCommandModel {
        self@
    }
}

impl FinishRunCommand {
    /// A copy.
    pub fn dup(&self) -> (r: Self)
        ensures
            r@ == self@,
    {
        FinishRunCommand {
            operation_id: self.operation_id,
            run_id: self.run_id,
            session_id: self.session_id,
            action: self.action,
            outcome: copy_text(&self.outcome),
        }
    }

    /// Whether two hold the same contents.
    pub fn same(&self, other: &Self) -> (r: bool)
        ensures
            r == (self@ == other@),
    {
        self.operation_id == other.operation_id
            && self.run_id == other.run_id
            && self.session_id == other.session_id
            && self.action == other.action
            && same(self.outcome.as_str(), other.outcome.as_str())
    }
}

/// A checkpoint read back.
#[derive(Debug, PartialEq, Eq)]
pub struct CheckpointSnapshot {
    pub checkpoint_id: CheckpointId,
    pub run_id: RunId,
    pub session_id: SessionId,
    pub stage: WorkflowStage,
    pub origin: CheckpointOrigin,
    pub completed_steps: Vec<String>,
    pub next_steps: Vec<String>,
    pub decisions: Vec<String>,
    pub rejected: Vec<String>,
    pub changed_files: Vec<String>,
    pub verification: Vec<String>,
    pub risks: Vec<String>,
    pub handoff_summary: String,
    pub created_at: Moment,
}

/// The contents of a [`CheckpointSnapshot`].
#[verifier::ext_equal]
pub struct CheckpointSnapshotModel {
    pub checkpoint_id: CheckpointId,
    pub run_id: RunId,
    pub session_id: SessionId,
    pub stage: WorkflowStage,
    pub origin: CheckpointOrigin,
    pub completed_steps: Seq<Seq<char>>,
    pub next_steps: Seq<Seq<char>>,
    pub decisions: Seq<Seq<char>>,
    pub rejected: Seq<Seq<char>>,
    pub changed_files: Seq<Seq<char>>,
    pub verification: Seq<Seq<char>>,
    pub risks: Seq<Seq<char>>,
    pub handoff_summary: Seq<char>,
    pub created_at: Moment,
}

impl View for CheckpointSnapshot {
    type V = CheckpointSnapshotModel;

    open spec fn view(&self) -> CheckpointSnapshotModel {
        CheckpointSnapshotModel {
            checkpoint_id: self.checkpoint_id,
            run_id: self.run_id,
            session_id: self.session_id,
            stage: self.stage,
            origin: self.origin,
            completed_steps: self.completed_steps.deep_view(),
            next_steps: self.next_steps.deep_view(),
            decisions: self.decisions.deep_view(),
            rejected: self.rejected.deep_view(),
            changed_files: self.changed_files.deep_view(),
            verification: self.verification.deep_view(),
            risks: self.risks.deep_view(),
            handoff_summary: self.handoff_summary@,
            created_at: self.created_at,
        }
    }
}

impl DeepView for CheckpointSnapshot {
    type V = CheckpointSnapshotModel;

    open spec fn deep_view(&self) -> CheckpointSnapshotModel {
        self@
    }
}

impl CheckpointSnapshot {
    /// A copy.
    pub fn dup(&self) -> (r: Self)
        ensures
            r@ == self@,
    {
        CheckpointSnapshot {
            checkpoint_id: self.checkpoint_id,
            run_id: self.run_id,
            session_id: self.session_id,
            stage: self.stage,
            origin: self.origin,
            completed_steps: copy_list(&self.completed_steps),
            next_steps: copy_list(&self.next_steps),
            decisions: copy_list(&self.decisions),
            rejected: copy_list(&self.rejected),
            changed_files: copy_list(&self.changed_files),
            verification: copy_list(&self.verification),
            risks: copy_list(&self.risks),
            handoff_summary: copy_text(&self.handoff_summary),
            created_at: self.created_at,
        }
    }
}

/// The run a session now belongs to.
#[derive(Debug, PartialEq, Eq)]
pub struct StartRunResult {
    pub run_id: RunId,
    pub session_id: SessionId,
    pub workspace_id: WorkspaceId,
    pub task: String,
    pub stage: WorkflowStage,
    pub latest_checkpoint: Option<CheckpointSnapshot>,
    pub instructions: Vec<String>,
}

/// The contents of a [`StartRunResult`].
#[verifier::ext_equal]
pub struct StartRunResultModel {
    pub run_id: RunId,
    pub session_id: SessionId,
    pub workspace_id: WorkspaceId,
    pub task: Seq<char>,
    pub stage: WorkflowStage,
    pub latest_checkpoint: Option<CheckpointSnapshotModel>,
    pub instructions: Seq<Seq<char>>,
}

impl View for StartRunResult {
    type V = StartRunResultModel;

    open spec fn view(&self) -> StartRunResultModel {
        StartRunResultModel {
            run_id: self.run_id,
            session_id: self.session_id,
            workspace_id: self.workspace_id,
            task: self.task@,
            stage: self.stage,
            latest_checkpoint: self.latest_checkpoint.deep_view(),
            instructions: self.instructions.deep_view(),
        }
    }
}

impl DeepView for StartRunResult {
    type V = StartRunResultModel;

    open spec fn deep_view(&self) -> StartRunResultModel {
        self@
    }
}

impl StartRunResult {
    /// A copy.
    pub fn dup(&self) -> (r: Self)
        ensures
            r@ == self@,
    {
        StartRunResult {
            run_id: self.run_id,
            session_id: self.session_id,
            workspace_id: self.workspace_id,
            task: copy_text(&self.task),
            stage: self.stage,
            latest_checkpoint: match &self.latest_checkpoint {
                Some(inner) => Some(inner.dup()),
                None => None,
            },
            instructions: copy_list(&self.instructions),
        }
    }
}

/// What saving a checkpoint did.
#[derive(Debug, PartialEq, Eq)]
pub struct CheckpointResult {
    pub checkpoint_id: CheckpointId,
    pub run_id: RunId,
    pub stage: WorkflowStage,
    pub task: Option<TaskClosed>,
}

/// The contents of a [`CheckpointResult`].
#[verifier::ext_equal]
pub struct CheckpointResultModel {
    pub checkpoint_id: CheckpointId,
    pub run_id: RunId,
    pub stage: WorkflowStage,
    pub task: Option<TaskClosedModel>,
}

impl View for CheckpointResult {
    type V = CheckpointResultModel;

    open spec fn view(&self) -> CheckpointResultModel {
        CheckpointResultModel {
            checkpoint_id: self.checkpoint_id,
            run_id: self.run_id,
            stage: self.stage,
            task: self.task.deep_view(),
        }
    }
}

impl DeepView for CheckpointResult {
    type V = CheckpointResultModel;

    open spec fn deep_view(&self) -> CheckpointResultModel {
        self@
    }
}

impl CheckpointResult {
    /// A copy.
    pub fn dup(&self) -> (r: Self)
        ensures
            r@ == self@,
    {
        CheckpointResult {
            checkpoint_id: self.checkpoint_id,
            run_id: self.run_id,
            stage: self.stage,
            task: match &self.task { Some(inner) => Some(inner.dup()), None => None },
        }
    }
}

/// What finishing did.
#[derive(Debug, PartialEq, Eq)]
pub struct FinishRunResult {
    pub run_id: RunId,
    pub session_id: SessionId,
    pub status: RunStatus,
    pub session_closed: bool,
    pub outcome: String,
}

/// The contents of a [`FinishRunResult`].
#[verifier::ext_equal]
pub struct FinishRunResultModel {
    pub run_id: RunId,
    pub session_id: SessionId,
    pub status: RunStatus,
    pub session_closed: bool,
    pub outcome: Seq<char>,
}

impl View for FinishRunResult {
    type V = FinishRunResultModel;

    open spec fn view(&self) -> FinishRunResultModel {
        FinishRunResultModel {
            run_id: self.run_id,
            session_id: self.session_id,
            status: self.status,
            session_closed: self.session_closed,
            outcome: self.outcome@,
        }
    }
}

impl DeepView for FinishRunResult {
    type V = FinishRunResultModel;

    open spec fn deep_view(&self) -> FinishRunResultModel {
        self@
    }
}

impl FinishRunResult {
    /// A copy.
    pub fn dup(&self) -> (r: Self)
        ensures
            r@ == self@,
    {
        FinishRunResult {
            run_id: self.run_id,
            session_id: self.session_id,
            status: self.status,
            session_closed: self.session_closed,
            outcome: copy_text(&self.outcome),
        }
    }
}

/// A run read back, with one of its checkpoints.
#[derive(Debug, PartialEq, Eq)]
pub struct RunSnapshot {
    pub run_id: RunId,
    pub workspace_id: WorkspaceId,
    pub task: String,
    pub status: RunStatus,
    pub stage: WorkflowStage,
    pub latest_checkpoint: Option<CheckpointSnapshot>,
    pub spec: Option<SpecBinding>,
}

/// The contents of a [`RunSnapshot`].
#[verifier::ext_equal]
pub struct RunSnapshotModel {
    pub run_id: RunId,
    pub workspace_id: WorkspaceId,
    pub task: Seq<char>,
    pub status: RunStatus,
    pub stage: WorkflowStage,
    pub latest_checkpoint: Option<CheckpointSnapshotModel>,
    pub spec: Option<SpecBindingModel>,
}

impl View for RunSnapshot {
    type V = RunSnapshotModel;

    open spec fn view(&self) -> RunSnapshotModel {
        RunSnapshotModel {
            run_id: self.run_id,
            workspace_id: self.workspace_id,
            task: self.task@,
            status: self.status,
            stage: self.stage,
            latest_checkpoint: self.latest_checkpoint.deep_view(),
            spec: self.spec.deep_view(),
        }
    }
}

impl DeepView for RunSnapshot {
    type V = RunSnapshotModel;

    open spec fn deep_view(&self) -> RunSnapshotModel {
        self@
    }
}

impl RunSnapshot {
    /// A copy.
    pub fn dup(&self) -> (r: Self)
        ensures
            r@ == self@,
    {
        RunSnapshot {
            run_id: self.run_id,
            workspace_id: self.workspace_id,
            task: copy_text(&self.task),
            status: self.status,
            stage: self.stage,
            latest_checkpoint: match &self.latest_checkpoint {
                Some(inner) => Some(inner.dup()),
                None => None,
            },
            spec: match &self.spec { Some(inner) => Some(inner.dup()), None => None },
        }
    }
}

/// One file that was seen to change.
#[derive(Debug, PartialEq, Eq)]
pub struct FileLedgerEntry {
    pub path: String,
    pub tool: String,
    pub observed_at: Moment,
}

/// The contents of a [`FileLedgerEntry`].
#[verifier::ext_equal]
pub struct FileLedgerEntryModel {
    pub path: Seq<char>,
    pub tool: Seq<char>,
    pub observed_at: Moment,
}

impl View for FileLedgerEntry {
    type V = FileLedgerEntryModel;

    open spec fn view(&self) -> FileLedgerEntryModel {
        FileLedgerEntryModel {
            path: self.path@,
            tool: self.tool@,
            observed_at: self.observed_at,
        }
    }
}

impl DeepView for FileLedgerEntry {
    type V = FileLedgerEntryModel;

    open spec fn deep_view(&self) -> FileLedgerEntryModel {
        self@
    }
}

impl FileLedgerEntry {
    /// A copy.
    pub fn dup(&self) -> (r: Self)
        ensures
            r@ == self@,
    {
        FileLedgerEntry {
            path: copy_text(&self.path),
            tool: copy_text(&self.tool),
            observed_at: self.observed_at,
        }
    }
}

/// What git reports of a working tree.
#[derive(Debug, PartialEq, Eq)]
pub struct GitState {
    pub branch: Option<String>,
    pub sha: Option<String>,
    pub dirty_files: u32,
}

/// The contents of a [`GitState`].
#[verifier::ext_equal]
pub struct GitStateModel {
    pub branch: Option<Seq<char>>,
    pub sha: Option<Seq<char>>,
    pub dirty_files: u32,
}

impl View for GitState {
    type V = GitStateModel;

    open spec fn view(&self) -> GitStateModel {
        GitStateModel {
            branch: self.branch.deep_view(),
            sha: self.sha.deep_view(),
            dirty_files: self.dirty_files,
        }
    }
}

impl DeepView for GitState {
    type V = GitStateModel;

    open spec fn deep_view(&self) -> GitStateModel {
        self@
    }
}

impl GitState {
    /// A copy.
    pub fn dup(&self) -> (r: Self)
        ensures
            r@ == self@,
    {
        GitState {
            branch: copy_option(&self.branch),
            sha: copy_option(&self.sha),
            dirty_files: self.dirty_files,
        }
    }
}

// --- memory ----------------------------------------------------------------

/// Where a fact was learned.
#[derive(Debug, PartialEq, Eq)]
pub struct Evidence {
    pub locator: String,
    pub excerpt: Option<String>,
}

/// The contents of a [`Evidence`].
#[verifier::ext_equal]
pub struct EvidenceModel {
    pub locator: Seq<char>,
    pub excerpt: Option<Seq<char>>,
}

impl View for Evidence {
    type V = EvidenceModel;

    open spec fn view(&self) -> EvidenceModel {
        EvidenceModel {
            locator: self.locator@,
            excerpt: self.excerpt.deep_view(),
        }
    }
}

impl DeepView for Evidence {
    type V = EvidenceModel;

    open spec fn deep_view(&self) -> EvidenceModel {
        self@
    }
}

impl Evidence {
    /// A copy.
    pub fn dup(&self) -> (r: Self)
        ensures
            r@ == self@,
    {
        Evidence {
            locator: copy_text(&self.locator),
            excerpt: copy_option(&self.excerpt),
        }
    }

    /// Whether two hold the same contents.
    pub fn same(&self, other: &Self) -> (r: bool)
        ensures
            r == (self@ == other@),
    {
        same(self.locator.as_str(), other.locator.as_str())
            && same_option(&self.excerpt, &other.excerpt)
    }
}

/// A copy of a list of evidence.
pub fn copy_evidence_list(list: &Vec<Evidence>) -> (r: Vec<Evidence>)
    ensures
        r.deep_view() == list.deep_view(),
{
    let mut r: Vec<Evidence> = Vec::new();
    let mut i: usize = 0;
    while i < list.len()
        invariant
            i <= list@.len(),
            r@.len() == i,
            forall|j: int| 0 <= j < i ==> r.deep_view()[j] == list.deep_view()[j],
        decreases list@.len() - i,
    {
        r.push(list[i].dup());
        i += 1;
    }
    assert(r.deep_view() =~= list.deep_view());
    r
}

/// Whether two lists hold the same evidence in the same order.
pub fn same_evidence_list(a: &Vec<Evidence>, b: &Vec<Evidence>) -> (r: bool)
    ensures
        r == (a.deep_view() == b.deep_view()),
{
    if a.len() != b.len() {
        assert(a.deep_view().len() != b.deep_view().len());
        return false;
    }
    let mut i: usize = 0;
    while i < a.len()
        invariant
            i <= a@.len(),
            a@.len() == b@.len(),
            forall|j: int| 0 <= j < i ==> a.deep_view()[j] == b.deep_view()[j],
        decreases a@.len() - i,
    {
        if !a[i].same(&b[i]) {
            assert(a.deep_view()[i as int] != b.deep_view()[i as int]);
            return false;
        }
        i += 1;
    }
    assert(a.deep_view() =~= b.deep_view());
    true
}

/// Writes one fact.
#[derive(Debug, PartialEq, Eq)]
pub struct RememberCommand {
    pub operation_id: OperationId,
    pub name: String,
    pub title: String,
    pub body: String,
    pub kind: FactKind,
    pub scope: FactScope,
    pub cardinality: Cardinality,
    pub status: FactStatus,
    /// How far the fact is trusted, as the bits of a number that is not negative:
    /// the greater the number, the greater the bits.
    pub confidence: u64,
    pub evidence: Vec<Evidence>,
    pub relates_to: Vec<(String, RelationKind)>,
}

/// The contents of a [`RememberCommand`].
#[verifier::ext_equal]
pub struct RememberCommandModel {
    pub operation_id: OperationId,
    pub name: Seq<char>,
    pub title: Seq<char>,
    pub body: Seq<char>,
    pub kind: FactKind,
    pub scope: FactScope,
    pub cardinality: Cardinality,
    pub status: FactStatus,
    pub confidence: u64,
    pub evidence: Seq<EvidenceModel>,
    pub relates_to: Seq<(Seq<char>, RelationKind)>,
}

impl View for RememberCommand {
    type V = RememberCommandModel;

    open spec fn view(&self) -> RememberCommandModel {
        RememberCommandModel {
            operation_id: self.operation_id,
            name: self.name@,
            title: self.title@,
            body: self.body@,
            kind: self.kind,
            scope: self.scope,
            cardinality: self.cardinality,
            status: self.status,
            confidence: self.confidence,
            evidence: self.evidence.deep_view(),
            relates_to: self.relates_to.deep_view(),
        }
    }
}

impl DeepView for RememberCommand {
    type V = RememberCommandModel;

    open spec fn deep_view(&self) -> RememberCommandModel {
        self@
    }
}

impl RememberCommand {
    /// A copy.
    pub fn dup(&self) -> (r: Self)
        ensures
            r@ == self@,
    {
        RememberCommand {
            operation_id: self.operation_id,
            name: copy_text(&self.name),
            title: copy_text(&self.title),
            body: copy_text(&self.body),
            kind: self.kind,
            scope: self.scope,
            cardinality: self.cardinality,
            status: self.status,
            confidence: self.confidence,
            evidence: copy_evidence_list(&self.evidence),
            relates_to: copy_links(&self.relates_to),
        }
    }

    /// Whether two hold the same contents.
    pub fn same(&self, other: &Self) -> (r: bool)
        ensures
            r == (self@ == other@),
    {
        self.operation_id == other.operation_id
            && same(self.name.as_str(), other.name.as_str())
            && same(self.title.as_str(), other.title.as_str())
            && same(self.body.as_str(), other.body.as_str())
            && self.kind == other.kind
            && self.scope == other.scope
            && self.cardinality == other.cardinality
            && self.status == other.status
            && self.confidence == other.confidence
            && same_evidence_list(&self.evidence, &other.evidence)
            && same_links(&self.relates_to, &other.relates_to)
    }
}

/// A fact read back.
#[derive(Debug, PartialEq, Eq)]
pub struct Fact {
    pub fact_id: FactId,
    pub name: String,
    pub title: String,
    pub body: String,
    pub kind: FactKind,
    pub scope: FactScope,
    pub cardinality: Cardinality,
    pub status: FactStatus,
    pub confidence: u64,
    pub namespace: Option<String>,
    pub evidence: Vec<Evidence>,
    pub updated_at: Moment,
}

/// The contents of a [`Fact`].
#[verifier::ext_equal]
pub struct FactModel {
    pub fact_id: FactId,
    pub name: Seq<char>,
    pub title: Seq<char>,
    pub body: Seq<char>,
    pub kind: FactKind,
    pub scope: FactScope,
    pub cardinality: Cardinality,
    pub status: FactStatus,
    pub confidence: u64,
    pub namespace: Option<Seq<char>>,
    pub evidence: Seq<EvidenceModel>,
    pub updated_at: Moment,
}

impl View for Fact {
    type V = FactModel;

    open spec fn view(&self) -> FactModel {
        FactModel {
            fact_id: self.fact_id,
            name: self.name@,
            title: self.title@,
            body: self.body@,
            kind: self.kind,
            scope: self.scope,
            cardinality: self.cardinality,
            status: self.status,
            confidence: self.confidence,
            namespace: self.namespace.deep_view(),
            evidence: self.evidence.deep_view(),
            updated_at: self.updated_at,
        }
    }
}

impl DeepView for Fact {
    type V = FactModel;

    open spec fn deep_view(&self) -> FactModel {
        self@
    }
}

impl Fact {
    /// A copy.
    pub fn dup(&self) -> (r: Self)
        ensures
            r@ == self@,
    {
        Fact {
            fact_id: self.fact_id,
            name: copy_text(&self.name),
            title: copy_text(&self.title),
            body: copy_text(&self.body),
            kind: self.kind,
            scope: self.scope,
            cardinality: self.cardinality,
            status: self.status,
            confidence: self.confidence,
            namespace: copy_option(&self.namespace),
            evidence: copy_evidence_list(&self.evidence),
            updated_at: self.updated_at,
        }
    }
}

/// A fact without its body.
#[derive(Debug, PartialEq, Eq)]
pub struct FactSummary {
    pub fact_id: FactId,
    pub name: String,
    pub title: String,
    pub kind: FactKind,
    pub scope: FactScope,
    pub status: FactStatus,
}

/// The contents of a [`FactSummary`].
#[verifier::ext_equal]
pub struct FactSummaryModel {
    pub fact_id: FactId,
    pub name: Seq<char>,
    pub title: Seq<char>,
    pub kind: FactKind,
    pub scope: FactScope,
    pub status: FactStatus,
}

impl View for FactSummary {
    type V = FactSummaryModel;

    open spec fn view(&self) -> FactSummaryModel {
        FactSummaryModel {
            fact_id: self.fact_id,
            name: self.name@,
            title: self.title@,
            kind: self.kind,
            scope: self.scope,
            status: self.status,
        }
    }
}

impl DeepView for FactSummary {
    type V = FactSummaryModel;

    open spec fn deep_view(&self) -> FactSummaryModel {
        self@
    }
}

impl FactSummary {
    /// A copy.
    pub fn dup(&self) -> (r: Self)
        ensures
            r@ == self@,
    {
        FactSummary {
            fact_id: self.fact_id,
            name: copy_text(&self.name),
            title: copy_text(&self.title),
            kind: self.kind,
            scope: self.scope,
            status: self.status,
        }
    }
}

// --- changes ---------------------------------------------------------------

/// Opens a change, or rewrites the proposal of one.
#[derive(Debug, PartialEq, Eq)]
pub struct ProposeCommand {
    pub operation_id: OperationId,
    pub slug: String,
    pub title: String,
    pub classification: Classification,
    pub why: String,
    pub what_changes: Vec<String>,
    pub capabilities: Vec<String>,
    pub impact: Option<String>,
    pub skip_specs: bool,
}

/// The contents of a [`ProposeCommand`].
#[verifier::ext_equal]
pub struct ProposeCommandModel {
    pub operation_id: OperationId,
    pub slug: Seq<char>,
    pub title: Seq<char>,
    pub classification: Classification,
    pub why: Seq<char>,
    pub what_changes: Seq<Seq<char>>,
    pub capabilities: Seq<Seq<char>>,
    pub impact: Option<Seq<char>>,
    pub skip_specs: bool,
}

impl View for ProposeCommand {
    type V = ProposeCommandModel;

    open spec fn view(&self) -> ProposeCommandModel {
        ProposeCommandModel {
            operation_id: self.operation_id,
            slug: self.slug@,
            title: self.title@,
            classification: self.classification,
            why: self.why@,
            what_changes: self.what_changes.deep_view(),
            capabilities: self.capabilities.deep_view(),
            impact: self.impact.deep_view(),
            skip_specs: self.skip_specs,
        }
    }
}

impl DeepView for ProposeCommand {
    type V = ProposeCommandModel;

    open spec fn deep_view(&self) -> ProposeCommandModel {
        self@
    }
}

impl ProposeCommand {
    /// A copy.
    pub fn dup(&self) -> (r: Self)
        ensures
            r@ == self@,
    {
        ProposeCommand {
            operation_id: self.operation_id,
            slug: copy_text(&self.slug),
            title: copy_text(&self.title),
            classification: self.classification,
            why: copy_text(&self.why),
            what_changes: copy_list(&self.what_changes),
            capabilities: copy_list(&self.capabilities),
            impact: copy_option(&self.impact),
            skip_specs: self.skip_specs,
        }
    }

    /// Whether two hold the same contents.
    pub fn same(&self, other: &Self) -> (r: bool)
        ensures
            r == (self@ == other@),
    {
        self.operation_id == other.operation_id
            && same(self.slug.as_str(), other.slug.as_str())
            && same(self.title.as_str(), other.title.as_str())
            && self.classification == other.classification
            && same(self.why.as_str(), other.why.as_str())
            && same_list(&self.what_changes, &other.what_changes)
            && same_list(&self.capabilities, &other.capabilities)
            && same_option(&self.impact, &other.impact)
            && self.skip_specs == other.skip_specs
    }
}

/// The change a proposal belongs to.
#[derive(Debug, PartialEq, Eq)]
pub struct ProposeResult {
    pub id: ChangeId,
    pub slug: String,
    pub status: ChangeStatus,
    /// True when the change was there before and its proposal was rewritten.
    pub rewritten: bool,
}

/// The contents of a [`ProposeResult`].
#[verifier::ext_equal]
pub struct ProposeResultModel {
    pub id: ChangeId,
    pub slug: Seq<char>,
    pub status: ChangeStatus,
    pub rewritten: bool,
}

impl View for ProposeResult {
    type V = ProposeResultModel;

    open spec fn view(&self) -> ProposeResultModel {
        ProposeResultModel {
            id: self.id,
            slug: self.slug@,
            status: self.status,
            rewritten: self.rewritten,
        }
    }
}

impl DeepView for ProposeResult {
    type V = ProposeResultModel;

    open spec fn deep_view(&self) -> ProposeResultModel {
        self@
    }
}

impl ProposeResult {
    /// A copy.
    pub fn dup(&self) -> (r: Self)
        ensures
            r@ == self@,
    {
        ProposeResult {
            id: self.id,
            slug: copy_text(&self.slug),
            status: self.status,
            rewritten: self.rewritten,
        }
    }
}

// --- requests and responses ------------------------------------------------

/// One request that is answered once, however often it is sent.
#[derive(Debug, PartialEq, Eq)]
pub enum Request {
    StartRun(StartRunCommand),
    Checkpoint(CheckpointCommand),
    Finish(FinishRunCommand),
    Remember(RememberCommand),
    Propose(ProposeCommand),
}

/// The contents of a [`Request`].
#[verifier::ext_equal]
pub enum RequestModel {
    StartRun(StartRunCommandModel),
    Checkpoint(CheckpointCommandModel),
    Finish(FinishRunCommandModel),
    Remember(RememberCommandModel),
    Propose(ProposeCommandModel),
}

impl View for Request {
    type V = RequestModel;

    open spec fn view(&self) -> RequestModel {
        match self {
            Request::StartRun(command) => RequestModel::StartRun(command@),
            Request::Checkpoint(command) => RequestModel::Checkpoint(command@),
            Request::Finish(command) => RequestModel::Finish(command@),
            Request::Remember(command) => RequestModel::Remember(command@),
            Request::Propose(command) => RequestModel::Propose(command@),
        }
    }
}

impl DeepView for Request {
    type V = RequestModel;

    open spec fn deep_view(&self) -> RequestModel {
        self@
    }
}

impl Request {
    /// A copy.
    pub fn dup(&self) -> (r: Self)
        ensures
            r@ == self@,
    {
        match self {
            Request::StartRun(command) => Request::StartRun(command.dup()),
            Request::Checkpoint(command) => Request::Checkpoint(command.dup()),
            Request::Finish(command) => Request::Finish(command.dup()),
            Request::Remember(command) => Request::Remember(command.dup()),
            Request::Propose(command) => Request::Propose(command.dup()),
        }
    }

    /// Whether two ask for the same.
    pub fn same(&self, other: &Self) -> (r: bool)
        ensures
            r == (self@ == other@),
    {
        match (self, other) {
            (Request::StartRun(a), Request::StartRun(b)) => a.same(b),
            (Request::Checkpoint(a), Request::Checkpoint(b)) => a.same(b),
            (Request::Finish(a), Request::Finish(b)) => a.same(b),
            (Request::Remember(a), Request::Remember(b)) => a.same(b),
            (Request::Propose(a), Request::Propose(b)) => a.same(b),
            _ => false,
        }
    }
}

/// What a request was answered.
#[derive(Debug, PartialEq, Eq)]
pub enum Response {
    StartRun(StartRunResult),
    Checkpoint(CheckpointResult),
    Finish(FinishRunResult),
    Remember(FactId),
    Propose(ProposeResult),
}

/// The contents of a [`Response`].
#[verifier::ext_equal]
pub enum ResponseModel {
    StartRun(StartRunResultModel),
    Checkpoint(CheckpointResultModel),
    Finish(FinishRunResultModel),
    Remember(FactId),
    Propose(ProposeResultModel),
}

impl View for Response {
    type V = ResponseModel;

    open spec fn view(&self) -> ResponseModel {
        match self {
            Response::StartRun(result) => ResponseModel::StartRun(result@),
            Response::Checkpoint(result) => ResponseModel::Checkpoint(result@),
            Response::Finish(result) => ResponseModel::Finish(result@),
            Response::Remember(result) => ResponseModel::Remember(*result),
            Response::Propose(result) => ResponseModel::Propose(result@),
        }
    }
}

impl DeepView for Response {
    type V = ResponseModel;

    open spec fn deep_view(&self) -> ResponseModel {
        self@
    }
}

impl Response {
    /// A copy.
    pub fn dup(&self) -> (r: Self)
        ensures
            r@ == self@,
    {
        match self {
            Response::StartRun(result) => Response::StartRun(result.dup()),
            Response::Checkpoint(result) => Response::Checkpoint(result.dup()),
            Response::Finish(result) => Response::Finish(result.dup()),
            Response::Remember(result) => Response::Remember(*result),
            Response::Propose(result) => Response::Propose(result.dup()),
        }
    }
}

} // verus!
