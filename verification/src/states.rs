//! The names the domain gives its states.
//!
//! Each is written down by its wire name, so what is stored and what is sent
//! cannot drift apart.

use vstd::prelude::*;

use crate::text::same;

verus! {

/// A state with a name of its own on the wire and in the database.
pub trait WireName: Sized {
    /// The wire name.
    spec fn wire(&self) -> Seq<char>;

    /// Different states have different names.
    proof fn wire_names_differ(a: Self, b: Self)
        ensures
            a.wire() == b.wire() ==> a == b,
    ;

    /// The wire name.
    fn to_wire(&self) -> (r: &'static str)
        ensures
            r@ == self.wire(),
    ;

    /// The state a wire name stands for.
    fn of_wire(raw: &str) -> (r: Option<Self>)
        ensures
            match r {
                Some(state) => state.wire() == raw@,
                None => forall|state: Self| #[trigger] state.wire() != raw@,
            },
    ;
}

/// Which harness a session runs in.
#[derive(Clone, Copy, Debug, PartialEq, Eq, Hash, Structural)]
pub enum HarnessKind {
    ClaudeCode,
    Codex,
}

impl View for HarnessKind {
    type V = HarnessKind;

    open spec fn view(&self) -> HarnessKind {
        *self
    }
}

impl DeepView for HarnessKind {
    type V = HarnessKind;

    open spec fn deep_view(&self) -> HarnessKind {
        *self
    }
}

impl WireName for HarnessKind {
    open spec fn wire(&self) -> Seq<char> {
        match self {
            HarnessKind::ClaudeCode => "claude_code"@,
            HarnessKind::Codex => "codex"@,
        }
    }

    proof fn wire_names_differ(a: Self, b: Self) {
        reveal_strlit("claude_code");
        reveal_strlit("codex");
        assert("claude_code"@.len() != "codex"@.len());
    }

    fn to_wire(&self) -> (r: &'static str) {
        match self {
            HarnessKind::ClaudeCode => "claude_code",
            HarnessKind::Codex => "codex",
        }
    }

    fn of_wire(raw: &str) -> (r: Option<Self>) {
        if same(raw, "claude_code") {
            Some(HarnessKind::ClaudeCode)
        } else if same(raw, "codex") {
            Some(HarnessKind::Codex)
        } else {
            None
        }
    }
}

/// How far the work of a run has come.
#[derive(Clone, Copy, Debug, PartialEq, Eq, Hash, Structural)]
pub enum WorkflowStage {
    Discovering,
    Executing,
    Reviewing,
    Completed,
}

impl View for WorkflowStage {
    type V = WorkflowStage;

    open spec fn view(&self) -> WorkflowStage {
        *self
    }
}

impl DeepView for WorkflowStage {
    type V = WorkflowStage;

    open spec fn deep_view(&self) -> WorkflowStage {
        *self
    }
}

impl WireName for WorkflowStage {
    open spec fn wire(&self) -> Seq<char> {
        match self {
            WorkflowStage::Discovering => "discovering"@,
            WorkflowStage::Executing => "executing"@,
            WorkflowStage::Reviewing => "reviewing"@,
            WorkflowStage::Completed => "completed"@,
        }
    }

    proof fn wire_names_differ(a: Self, b: Self) {
        reveal_strlit("discovering");
        reveal_strlit("executing");
        reveal_strlit("reviewing");
        reveal_strlit("completed");
        assert("discovering"@.len() != "executing"@.len());
        assert("discovering"@.len() != "reviewing"@.len());
        assert("discovering"@.len() != "completed"@.len());
        assert("executing"@[0] != "reviewing"@[0]);
        assert("executing"@[0] != "completed"@[0]);
        assert("reviewing"@[0] != "completed"@[0]);
    }

    fn to_wire(&self) -> (r: &'static str) {
        match self {
            WorkflowStage::Discovering => "discovering",
            WorkflowStage::Executing => "executing",
            WorkflowStage::Reviewing => "reviewing",
            WorkflowStage::Completed => "completed",
        }
    }

    fn of_wire(raw: &str) -> (r: Option<Self>) {
        if same(raw, "discovering") {
            Some(WorkflowStage::Discovering)
        } else if same(raw, "executing") {
            Some(WorkflowStage::Executing)
        } else if same(raw, "reviewing") {
            Some(WorkflowStage::Reviewing)
        } else if same(raw, "completed") {
            Some(WorkflowStage::Completed)
        } else {
            None
        }
    }
}

/// Where the reasoning in a checkpoint comes from.
#[derive(Clone, Copy, Debug, PartialEq, Eq, Hash, Structural)]
pub enum CheckpointOrigin {
    /// Written from observation alone.
    Deterministic,
    /// Carries reasoning.
    Enriched,
}

impl View for CheckpointOrigin {
    type V = CheckpointOrigin;

    open spec fn view(&self) -> CheckpointOrigin {
        *self
    }
}

impl DeepView for CheckpointOrigin {
    type V = CheckpointOrigin;

    open spec fn deep_view(&self) -> CheckpointOrigin {
        *self
    }
}

impl WireName for CheckpointOrigin {
    open spec fn wire(&self) -> Seq<char> {
        match self {
            CheckpointOrigin::Deterministic => "deterministic"@,
            CheckpointOrigin::Enriched => "enriched"@,
        }
    }

    proof fn wire_names_differ(a: Self, b: Self) {
        reveal_strlit("deterministic");
        reveal_strlit("enriched");
        assert("deterministic"@.len() != "enriched"@.len());
    }

    fn to_wire(&self) -> (r: &'static str) {
        match self {
            CheckpointOrigin::Deterministic => "deterministic",
            CheckpointOrigin::Enriched => "enriched",
        }
    }

    fn of_wire(raw: &str) -> (r: Option<Self>) {
        if same(raw, "deterministic") {
            Some(CheckpointOrigin::Deterministic)
        } else if same(raw, "enriched") {
            Some(CheckpointOrigin::Enriched)
        } else {
            None
        }
    }
}

/// Whether a run still takes work.
#[derive(Clone, Copy, Debug, PartialEq, Eq, Hash, Structural)]
pub enum RunStatus {
    Open,
    Completed,
}

impl View for RunStatus {
    type V = RunStatus;

    open spec fn view(&self) -> RunStatus {
        *self
    }
}

impl DeepView for RunStatus {
    type V = RunStatus;

    open spec fn deep_view(&self) -> RunStatus {
        *self
    }
}

impl WireName for RunStatus {
    open spec fn wire(&self) -> Seq<char> {
        match self {
            RunStatus::Open => "open"@,
            RunStatus::Completed => "completed"@,
        }
    }

    proof fn wire_names_differ(a: Self, b: Self) {
        reveal_strlit("open");
        reveal_strlit("completed");
        assert("open"@.len() != "completed"@.len());
    }

    fn to_wire(&self) -> (r: &'static str) {
        match self {
            RunStatus::Open => "open",
            RunStatus::Completed => "completed",
        }
    }

    fn of_wire(raw: &str) -> (r: Option<Self>) {
        if same(raw, "open") {
            Some(RunStatus::Open)
        } else if same(raw, "completed") {
            Some(RunStatus::Completed)
        } else {
            None
        }
    }
}

/// What a fact is about.
#[derive(Clone, Copy, Debug, PartialEq, Eq, Hash, Structural)]
pub enum FactKind {
    Project,
    Feedback,
}

impl View for FactKind {
    type V = FactKind;

    open spec fn view(&self) -> FactKind {
        *self
    }
}

impl DeepView for FactKind {
    type V = FactKind;

    open spec fn deep_view(&self) -> FactKind {
        *self
    }
}

impl WireName for FactKind {
    open spec fn wire(&self) -> Seq<char> {
        match self {
            FactKind::Project => "project"@,
            FactKind::Feedback => "feedback"@,
        }
    }

    proof fn wire_names_differ(a: Self, b: Self) {
        reveal_strlit("project");
        reveal_strlit("feedback");
        assert("project"@.len() != "feedback"@.len());
    }

    fn to_wire(&self) -> (r: &'static str) {
        match self {
            FactKind::Project => "project",
            FactKind::Feedback => "feedback",
        }
    }

    fn of_wire(raw: &str) -> (r: Option<Self>) {
        if same(raw, "project") {
            Some(FactKind::Project)
        } else if same(raw, "feedback") {
            Some(FactKind::Feedback)
        } else {
            None
        }
    }
}

/// Where a fact applies.
#[derive(Clone, Copy, Debug, PartialEq, Eq, Hash, Structural)]
pub enum FactScope {
    Run,
    Repository,
    Workspace,
    User,
}

impl View for FactScope {
    type V = FactScope;

    open spec fn view(&self) -> FactScope {
        *self
    }
}

impl DeepView for FactScope {
    type V = FactScope;

    open spec fn deep_view(&self) -> FactScope {
        *self
    }
}

impl WireName for FactScope {
    open spec fn wire(&self) -> Seq<char> {
        match self {
            FactScope::Run => "run"@,
            FactScope::Repository => "repository"@,
            FactScope::Workspace => "workspace"@,
            FactScope::User => "user"@,
        }
    }

    proof fn wire_names_differ(a: Self, b: Self) {
        reveal_strlit("run");
        reveal_strlit("repository");
        reveal_strlit("workspace");
        reveal_strlit("user");
        assert("run"@.len() != "repository"@.len());
        assert("run"@.len() != "workspace"@.len());
        assert("run"@.len() != "user"@.len());
        assert("repository"@.len() != "workspace"@.len());
        assert("repository"@.len() != "user"@.len());
        assert("workspace"@.len() != "user"@.len());
    }

    fn to_wire(&self) -> (r: &'static str) {
        match self {
            FactScope::Run => "run",
            FactScope::Repository => "repository",
            FactScope::Workspace => "workspace",
            FactScope::User => "user",
        }
    }

    fn of_wire(raw: &str) -> (r: Option<Self>) {
        if same(raw, "run") {
            Some(FactScope::Run)
        } else if same(raw, "repository") {
            Some(FactScope::Repository)
        } else if same(raw, "workspace") {
            Some(FactScope::Workspace)
        } else if same(raw, "user") {
            Some(FactScope::User)
        } else {
            None
        }
    }
}

/// How values of one name relate to each other.
#[derive(Clone, Copy, Debug, PartialEq, Eq, Hash, Structural)]
pub enum Cardinality {
    /// A new value replaces the one before it.
    Single,
    /// Values stand beside each other.
    Many,
}

impl View for Cardinality {
    type V = Cardinality;

    open spec fn view(&self) -> Cardinality {
        *self
    }
}

impl DeepView for Cardinality {
    type V = Cardinality;

    open spec fn deep_view(&self) -> Cardinality {
        *self
    }
}

impl WireName for Cardinality {
    open spec fn wire(&self) -> Seq<char> {
        match self {
            Cardinality::Single => "single"@,
            Cardinality::Many => "set"@,
        }
    }

    proof fn wire_names_differ(a: Self, b: Self) {
        reveal_strlit("single");
        reveal_strlit("set");
        assert("single"@.len() != "set"@.len());
    }

    fn to_wire(&self) -> (r: &'static str) {
        match self {
            Cardinality::Single => "single",
            Cardinality::Many => "set",
        }
    }

    fn of_wire(raw: &str) -> (r: Option<Self>) {
        if same(raw, "single") {
            Some(Cardinality::Single)
        } else if same(raw, "set") {
            Some(Cardinality::Many)
        } else {
            None
        }
    }
}

/// How far a fact is trusted.
#[derive(Clone, Copy, Debug, PartialEq, Eq, Hash, Structural)]
pub enum FactStatus {
    Observed,
    Verified,
    Contradicted,
    Revoked,
}

impl View for FactStatus {
    type V = FactStatus;

    open spec fn view(&self) -> FactStatus {
        *self
    }
}

impl DeepView for FactStatus {
    type V = FactStatus;

    open spec fn deep_view(&self) -> FactStatus {
        *self
    }
}

impl WireName for FactStatus {
    open spec fn wire(&self) -> Seq<char> {
        match self {
            FactStatus::Observed => "observed"@,
            FactStatus::Verified => "verified"@,
            FactStatus::Contradicted => "contradicted"@,
            FactStatus::Revoked => "revoked"@,
        }
    }

    proof fn wire_names_differ(a: Self, b: Self) {
        reveal_strlit("observed");
        reveal_strlit("verified");
        reveal_strlit("contradicted");
        reveal_strlit("revoked");
        assert("observed"@[0] != "verified"@[0]);
        assert("observed"@.len() != "contradicted"@.len());
        assert("observed"@.len() != "revoked"@.len());
        assert("verified"@.len() != "contradicted"@.len());
        assert("verified"@.len() != "revoked"@.len());
        assert("contradicted"@.len() != "revoked"@.len());
    }

    fn to_wire(&self) -> (r: &'static str) {
        match self {
            FactStatus::Observed => "observed",
            FactStatus::Verified => "verified",
            FactStatus::Contradicted => "contradicted",
            FactStatus::Revoked => "revoked",
        }
    }

    fn of_wire(raw: &str) -> (r: Option<Self>) {
        if same(raw, "observed") {
            Some(FactStatus::Observed)
        } else if same(raw, "verified") {
            Some(FactStatus::Verified)
        } else if same(raw, "contradicted") {
            Some(FactStatus::Contradicted)
        } else if same(raw, "revoked") {
            Some(FactStatus::Revoked)
        } else {
            None
        }
    }
}

/// How one fact relates to another.
#[derive(Clone, Copy, Debug, PartialEq, Eq, Hash, Structural)]
pub enum RelationKind {
    Related,
    Supersedes,
}

impl View for RelationKind {
    type V = RelationKind;

    open spec fn view(&self) -> RelationKind {
        *self
    }
}

impl DeepView for RelationKind {
    type V = RelationKind;

    open spec fn deep_view(&self) -> RelationKind {
        *self
    }
}

impl WireName for RelationKind {
    open spec fn wire(&self) -> Seq<char> {
        match self {
            RelationKind::Related => "related"@,
            RelationKind::Supersedes => "supersedes"@,
        }
    }

    proof fn wire_names_differ(a: Self, b: Self) {
        reveal_strlit("related");
        reveal_strlit("supersedes");
        assert("related"@.len() != "supersedes"@.len());
    }

    fn to_wire(&self) -> (r: &'static str) {
        match self {
            RelationKind::Related => "related",
            RelationKind::Supersedes => "supersedes",
        }
    }

    fn of_wire(raw: &str) -> (r: Option<Self>) {
        if same(raw, "related") {
            Some(RelationKind::Related)
        } else if same(raw, "supersedes") {
            Some(RelationKind::Supersedes)
        } else {
            None
        }
    }
}

/// How freely a repository may be touched.
#[derive(Clone, Copy, Debug, PartialEq, Eq, Hash, Structural)]
pub enum RepositoryRole {
    Primary,
    Infrastructure,
}

impl View for RepositoryRole {
    type V = RepositoryRole;

    open spec fn view(&self) -> RepositoryRole {
        *self
    }
}

impl DeepView for RepositoryRole {
    type V = RepositoryRole;

    open spec fn deep_view(&self) -> RepositoryRole {
        *self
    }
}

impl WireName for RepositoryRole {
    open spec fn wire(&self) -> Seq<char> {
        match self {
            RepositoryRole::Primary => "primary"@,
            RepositoryRole::Infrastructure => "infrastructure"@,
        }
    }

    proof fn wire_names_differ(a: Self, b: Self) {
        reveal_strlit("primary");
        reveal_strlit("infrastructure");
        assert("primary"@.len() != "infrastructure"@.len());
    }

    fn to_wire(&self) -> (r: &'static str) {
        match self {
            RepositoryRole::Primary => "primary",
            RepositoryRole::Infrastructure => "infrastructure",
        }
    }

    fn of_wire(raw: &str) -> (r: Option<Self>) {
        if same(raw, "primary") {
            Some(RepositoryRole::Primary)
        } else if same(raw, "infrastructure") {
            Some(RepositoryRole::Infrastructure)
        } else {
            None
        }
    }
}

/// How much of the product a change touches.
#[derive(Clone, Copy, Debug, PartialEq, Eq, Hash, Structural)]
pub enum Classification {
    Bounded,
    Architectural,
}

impl View for Classification {
    type V = Classification;

    open spec fn view(&self) -> Classification {
        *self
    }
}

impl DeepView for Classification {
    type V = Classification;

    open spec fn deep_view(&self) -> Classification {
        *self
    }
}

impl WireName for Classification {
    open spec fn wire(&self) -> Seq<char> {
        match self {
            Classification::Bounded => "bounded"@,
            Classification::Architectural => "architectural"@,
        }
    }

    proof fn wire_names_differ(a: Self, b: Self) {
        reveal_strlit("bounded");
        reveal_strlit("architectural");
        assert("bounded"@.len() != "architectural"@.len());
    }

    fn to_wire(&self) -> (r: &'static str) {
        match self {
            Classification::Bounded => "bounded",
            Classification::Architectural => "architectural",
        }
    }

    fn of_wire(raw: &str) -> (r: Option<Self>) {
        if same(raw, "bounded") {
            Some(Classification::Bounded)
        } else if same(raw, "architectural") {
            Some(Classification::Architectural)
        } else {
            None
        }
    }
}

/// How far a change has come.
#[derive(Clone, Copy, Debug, PartialEq, Eq, Hash, Structural)]
pub enum ChangeStatus {
    Drafting,
    Specified,
    Planned,
    Executing,
    Ready,
    Archived,
    Abandoned,
}

impl View for ChangeStatus {
    type V = ChangeStatus;

    open spec fn view(&self) -> ChangeStatus {
        *self
    }
}

impl DeepView for ChangeStatus {
    type V = ChangeStatus;

    open spec fn deep_view(&self) -> ChangeStatus {
        *self
    }
}

impl WireName for ChangeStatus {
    open spec fn wire(&self) -> Seq<char> {
        match self {
            ChangeStatus::Drafting => "drafting"@,
            ChangeStatus::Specified => "specified"@,
            ChangeStatus::Planned => "planned"@,
            ChangeStatus::Executing => "executing"@,
            ChangeStatus::Ready => "ready"@,
            ChangeStatus::Archived => "archived"@,
            ChangeStatus::Abandoned => "abandoned"@,
        }
    }

    proof fn wire_names_differ(a: Self, b: Self) {
        reveal_strlit("drafting");
        reveal_strlit("specified");
        reveal_strlit("planned");
        reveal_strlit("executing");
        reveal_strlit("ready");
        reveal_strlit("archived");
        reveal_strlit("abandoned");
        assert("drafting"@.len() != "specified"@.len());
        assert("drafting"@.len() != "planned"@.len());
        assert("drafting"@.len() != "executing"@.len());
        assert("drafting"@.len() != "ready"@.len());
        assert("drafting"@[0] != "archived"@[0]);
        assert("drafting"@.len() != "abandoned"@.len());
        assert("specified"@.len() != "planned"@.len());
        assert("specified"@[0] != "executing"@[0]);
        assert("specified"@.len() != "ready"@.len());
        assert("specified"@.len() != "archived"@.len());
        assert("specified"@[0] != "abandoned"@[0]);
        assert("planned"@.len() != "executing"@.len());
        assert("planned"@.len() != "ready"@.len());
        assert("planned"@.len() != "archived"@.len());
        assert("planned"@.len() != "abandoned"@.len());
        assert("executing"@.len() != "ready"@.len());
        assert("executing"@.len() != "archived"@.len());
        assert("executing"@[0] != "abandoned"@[0]);
        assert("ready"@.len() != "archived"@.len());
        assert("ready"@.len() != "abandoned"@.len());
        assert("archived"@.len() != "abandoned"@.len());
    }

    fn to_wire(&self) -> (r: &'static str) {
        match self {
            ChangeStatus::Drafting => "drafting",
            ChangeStatus::Specified => "specified",
            ChangeStatus::Planned => "planned",
            ChangeStatus::Executing => "executing",
            ChangeStatus::Ready => "ready",
            ChangeStatus::Archived => "archived",
            ChangeStatus::Abandoned => "abandoned",
        }
    }

    fn of_wire(raw: &str) -> (r: Option<Self>) {
        if same(raw, "drafting") {
            Some(ChangeStatus::Drafting)
        } else if same(raw, "specified") {
            Some(ChangeStatus::Specified)
        } else if same(raw, "planned") {
            Some(ChangeStatus::Planned)
        } else if same(raw, "executing") {
            Some(ChangeStatus::Executing)
        } else if same(raw, "ready") {
            Some(ChangeStatus::Ready)
        } else if same(raw, "archived") {
            Some(ChangeStatus::Archived)
        } else if same(raw, "abandoned") {
            Some(ChangeStatus::Abandoned)
        } else {
            None
        }
    }
}

/// How far a task of a plan has come.
#[derive(Clone, Copy, Debug, PartialEq, Eq, Hash, Structural)]
pub enum TaskStatus {
    Pending,
    Running,
    Done,
    Skipped,
}

impl View for TaskStatus {
    type V = TaskStatus;

    open spec fn view(&self) -> TaskStatus {
        *self
    }
}

impl DeepView for TaskStatus {
    type V = TaskStatus;

    open spec fn deep_view(&self) -> TaskStatus {
        *self
    }
}

impl WireName for TaskStatus {
    open spec fn wire(&self) -> Seq<char> {
        match self {
            TaskStatus::Pending => "pending"@,
            TaskStatus::Running => "running"@,
            TaskStatus::Done => "done"@,
            TaskStatus::Skipped => "skipped"@,
        }
    }

    proof fn wire_names_differ(a: Self, b: Self) {
        reveal_strlit("pending");
        reveal_strlit("running");
        reveal_strlit("done");
        reveal_strlit("skipped");
        assert("pending"@[0] != "running"@[0]);
        assert("pending"@.len() != "done"@.len());
        assert("pending"@[0] != "skipped"@[0]);
        assert("running"@.len() != "done"@.len());
        assert("running"@[0] != "skipped"@[0]);
        assert("done"@.len() != "skipped"@.len());
    }

    fn to_wire(&self) -> (r: &'static str) {
        match self {
            TaskStatus::Pending => "pending",
            TaskStatus::Running => "running",
            TaskStatus::Done => "done",
            TaskStatus::Skipped => "skipped",
        }
    }

    fn of_wire(raw: &str) -> (r: Option<Self>) {
        if same(raw, "pending") {
            Some(TaskStatus::Pending)
        } else if same(raw, "running") {
            Some(TaskStatus::Running)
        } else if same(raw, "done") {
            Some(TaskStatus::Done)
        } else if same(raw, "skipped") {
            Some(TaskStatus::Skipped)
        } else {
            None
        }
    }
}

/// How far a queued job has come.
#[derive(Clone, Copy, Debug, PartialEq, Eq, Hash, Structural)]
pub enum JobStatus {
    Pending,
    Running,
    Done,
    Failed,
}

impl View for JobStatus {
    type V = JobStatus;

    open spec fn view(&self) -> JobStatus {
        *self
    }
}

impl DeepView for JobStatus {
    type V = JobStatus;

    open spec fn deep_view(&self) -> JobStatus {
        *self
    }
}

impl WireName for JobStatus {
    open spec fn wire(&self) -> Seq<char> {
        match self {
            JobStatus::Pending => "pending"@,
            JobStatus::Running => "running"@,
            JobStatus::Done => "done"@,
            JobStatus::Failed => "failed"@,
        }
    }

    proof fn wire_names_differ(a: Self, b: Self) {
        reveal_strlit("pending");
        reveal_strlit("running");
        reveal_strlit("done");
        reveal_strlit("failed");
        assert("pending"@[0] != "running"@[0]);
        assert("pending"@.len() != "done"@.len());
        assert("pending"@.len() != "failed"@.len());
        assert("running"@.len() != "done"@.len());
        assert("running"@.len() != "failed"@.len());
        assert("done"@.len() != "failed"@.len());
    }

    fn to_wire(&self) -> (r: &'static str) {
        match self {
            JobStatus::Pending => "pending",
            JobStatus::Running => "running",
            JobStatus::Done => "done",
            JobStatus::Failed => "failed",
        }
    }

    fn of_wire(raw: &str) -> (r: Option<Self>) {
        if same(raw, "pending") {
            Some(JobStatus::Pending)
        } else if same(raw, "running") {
            Some(JobStatus::Running)
        } else if same(raw, "done") {
            Some(JobStatus::Done)
        } else if same(raw, "failed") {
            Some(JobStatus::Failed)
        } else {
            None
        }
    }
}

/// What finishing a run is asked to do.
#[derive(Clone, Copy, Debug, PartialEq, Eq, Hash, Structural)]
pub enum FinishAction {
    /// End the session and leave the run open.
    CloseSession,
    /// End the session and complete the run.
    CompleteRun,
}

impl View for FinishAction {
    type V = FinishAction;

    open spec fn view(&self) -> FinishAction {
        *self
    }
}

impl DeepView for FinishAction {
    type V = FinishAction;

    open spec fn deep_view(&self) -> FinishAction {
        *self
    }
}

impl Cardinality {
    /// Values of one name compete within one scope.
    pub open spec fn competing(self) -> bool {
        self == Cardinality::Single
    }

    /// Whether a new value replaces the one before it in the same scope.
    pub fn conflicts_within_scope(&self) -> (r: bool)
        ensures
            r == self.competing(),
    {
        *self == Cardinality::Single
    }
}

impl Default for RepositoryRole {
    fn default() -> (r: Self)
        ensures
            r == RepositoryRole::Primary,
    {
        RepositoryRole::Primary
    }
}

} // verus!
