//! The life of a run: opening it, checkpointing it, finishing it, reading it
//! back.

use vstd::prelude::*;

use crate::domain::{
    CheckpointCommand, CheckpointCommandModel, CheckpointResult, CheckpointResultModel,
    CheckpointSnapshot, CheckpointSnapshotModel, FinishRunCommand, FinishRunCommandModel,
    FinishRunResult, FinishRunResultModel, Request, RequestModel, Response, ResponseModel,
    RunSnapshot, RunSnapshotModel, SpecBinding, StartRunCommand, StartRunCommandModel,
    StartRunResult, StartRunResultModel,
};
use crate::error::{outcome, DomainError, DomainErrorModel, StoreError, StoreErrorModel};
use crate::git::{RepositoryProbe, RepositoryProbeModel};
use crate::ids::{CheckpointId, RepositoryId, RunId, SessionId, WorkspaceId};
use crate::keys::{checkpoint_taken, run_taken, session_taken, taken, taken_error};
use crate::moment::{clock_text, on_the_clock, Moment};
use crate::operations::executed;
use crate::outside::marked_random;
use crate::plan::{
    close_task_step, is_run, loaded_run, task_lease, task_lease_span, with_binding,
    write_binding_step, RunView, RunViewModel,
};
use crate::repositories::resolve_step;
use crate::rows::{
    any_row, changed, is_last, last_row, lemma_last, lemma_no_last, lemma_tally_step, tally,
};
use crate::states::{FinishAction, HarnessKind, RunStatus, WorkflowStage};
use crate::tables::{
    CheckpointRow, CheckpointRowModel, RunRecord, RunRecordModel, SessionRow, SessionRowModel,
    Store, StoreModel,
};
use crate::text::{copy_list, copy_option, copy_text};
use crate::values::{moment_of, parse_timestamp};

verus! {

// --- reading checkpoints ---------------------------------------------------

/// Being a checkpoint of a run.
pub open spec fn of_run(run: RunId) -> spec_fn(CheckpointRowModel) -> bool {
    |row: CheckpointRowModel| row.run_id == run
}

/// Being a checkpoint of a run that a session wrote.
pub open spec fn of_session(run: RunId, session: SessionId) -> spec_fn(CheckpointRowModel) -> bool {
    |row: CheckpointRowModel| row.run_id == run && row.session_id == session
}

/// A checkpoint read back.
pub open spec fn snapshot_of(row: CheckpointRowModel, run: RunId) -> Result<
    CheckpointSnapshotModel,
    StoreErrorModel,
> {
    match moment_of(row.created_at) {
        Err(error) => Err(error),
        Ok(created_at) => Ok(
            CheckpointSnapshotModel {
                checkpoint_id: row.id,
                run_id: run,
                session_id: row.session_id,
                stage: row.payload.stage,
                origin: row.origin,
                completed_steps: row.payload.completed_steps,
                next_steps: row.payload.next_steps,
                decisions: row.payload.decisions,
                rejected: row.payload.rejected,
                changed_files: row.payload.changed_files,
                verification: row.payload.verification,
                risks: row.payload.risks,
                handoff_summary: row.payload.handoff_summary,
                created_at,
            },
        ),
    }
}

/// The row of the checkpoint a session is shown: its own latest, and the run's
/// latest when it has written none.
pub open spec fn shown_row(
    checkpoints: Seq<CheckpointRowModel>,
    run: RunId,
    session: Option<SessionId>,
) -> Option<CheckpointRowModel> {
    let own = match session {
        Some(id) => last_row(checkpoints, of_session(run, id)),
        None => None,
    };
    match own {
        Some(row) => Some(row),
        None => last_row(checkpoints, of_run(run)),
    }
}

/// The checkpoint a session is shown.
pub open spec fn shown_checkpoint(
    checkpoints: Seq<CheckpointRowModel>,
    run: RunId,
    session: Option<SessionId>,
) -> Result<Option<CheckpointSnapshotModel>, StoreErrorModel> {
    match shown_row(checkpoints, run, session) {
        None => Ok(None),
        Some(row) => match snapshot_of(row, run) {
            Ok(snapshot) => Ok(Some(snapshot)),
            Err(error) => Err(error),
        },
    }
}

impl Store {
    fn last_checkpoint_of_run(&self, run: RunId) -> (r: Option<usize>)
        ensures
            match r {
                Some(i) => i < self.checkpoints@.len() && last_row(self@.checkpoints, of_run(run))
                    == Some(self.checkpoints@[i as int]@),
                None => last_row(self@.checkpoints, of_run(run)) is None,
            },
    {
        let ghost p = of_run(run);
        let mut i: usize = self.checkpoints.len();
        while i > 0
            invariant
                i <= self.checkpoints@.len(),
                p == of_run(run),
                forall|j: int|
                    i <= j < self.checkpoints@.len() ==> !p(#[trigger] self@.checkpoints[j]),
            decreases i,
        {
            i -= 1;
            if self.checkpoints[i].run_id == run {
                proof {
                    assert(is_last(self@.checkpoints, p, i as int));
                    lemma_last(self@.checkpoints, p, i as int);
                }
                return Some(i);
            }
        }
        proof {
            lemma_no_last(self@.checkpoints, p);
        }
        None
    }

    fn last_checkpoint_of_session(&self, run: RunId, session: SessionId) -> (r: Option<usize>)
        ensures
            match r {
                Some(i) => i < self.checkpoints@.len() && last_row(
                    self@.checkpoints,
                    of_session(run, session),
                ) == Some(self.checkpoints@[i as int]@),
                None => last_row(self@.checkpoints, of_session(run, session)) is None,
            },
    {
        let ghost p = of_session(run, session);
        let mut i: usize = self.checkpoints.len();
        while i > 0
            invariant
                i <= self.checkpoints@.len(),
                p == of_session(run, session),
                forall|j: int|
                    i <= j < self.checkpoints@.len() ==> !p(#[trigger] self@.checkpoints[j]),
            decreases i,
        {
            i -= 1;
            if self.checkpoints[i].run_id == run && self.checkpoints[i].session_id == session {
                proof {
                    assert(is_last(self@.checkpoints, p, i as int));
                    lemma_last(self@.checkpoints, p, i as int);
                }
                return Some(i);
            }
        }
        proof {
            lemma_no_last(self@.checkpoints, p);
        }
        None
    }

    /// One checkpoint, read back.
    fn checkpoint_row(&self, i: usize, run: RunId) -> (r: Result<CheckpointSnapshot, StoreError>)
        requires
            i < self.checkpoints@.len(),
        ensures
            outcome(r) == snapshot_of(self.checkpoints@[i as int]@, run),
    {
        let row = &self.checkpoints[i];
        match parse_timestamp(row.created_at.as_str()) {
            Err(error) => Err(error),
            Ok(created_at) => Ok(
                CheckpointSnapshot {
                    checkpoint_id: row.id,
                    run_id: run,
                    session_id: row.session_id,
                    stage: row.payload.stage,
                    origin: row.origin,
                    completed_steps: copy_list(&row.payload.completed_steps),
                    next_steps: copy_list(&row.payload.next_steps),
                    decisions: copy_list(&row.payload.decisions),
                    rejected: copy_list(&row.payload.rejected),
                    changed_files: copy_list(&row.payload.changed_files),
                    verification: copy_list(&row.payload.verification),
                    risks: copy_list(&row.payload.risks),
                    handoff_summary: copy_text(&row.payload.handoff_summary),
                    created_at,
                },
            ),
        }
    }

    /// The checkpoint a session should be shown: its own latest, falling back to
    /// the run's latest. A session joining work in flight has nothing of its own
    /// and needs to know where things stand.
    pub fn latest_checkpoint(&self, run: RunId, session: Option<SessionId>) -> (r: Result<
        Option<CheckpointSnapshot>,
        StoreError,
    >)
        ensures
            outcome(r) == shown_checkpoint(self@.checkpoints, run, session),
    {
        let own = match session {
            Some(id) => self.last_checkpoint_of_session(run, id),
            None => None,
        };
        let shown = match own {
            Some(i) => Some(i),
            None => self.last_checkpoint_of_run(run),
        };
        match shown {
            None => Ok(None),
            Some(i) => match self.checkpoint_row(i, run) {
                Ok(snapshot) => Ok(Some(snapshot)),
                Err(error) => Err(error),
            },
        }
    }
}

// --- reading runs ----------------------------------------------------------

/// A run as one session should see it.
pub open spec fn run_snapshot(s: StoreModel, run: RunId, session: Option<SessionId>) -> Result<
    RunSnapshotModel,
    StoreErrorModel,
> {
    match loaded_run(s, run) {
        Err(error) => Err(error),
        Ok(row) => match shown_checkpoint(s.checkpoints, run, session) {
            Err(error) => Err(error),
            Ok(latest_checkpoint) => Ok(
                RunSnapshotModel {
                    run_id: run,
                    workspace_id: row.workspace_id,
                    task: row.task,
                    status: row.status,
                    stage: row.stage,
                    latest_checkpoint,
                    spec: row.spec,
                },
            ),
        },
    }
}

impl Store {
    /// The run as one session should see it: carrying that session's own latest
    /// checkpoint rather than whichever landed last on the run.
    pub fn snapshot_for_session(&self, run: RunId, session: Option<SessionId>) -> (r: Result<
        RunSnapshot,
        StoreError,
    >)
        ensures
            outcome(r) == run_snapshot(self@, run, session),
    {
        match self.load_run_row(run) {
            Err(error) => Err(error),
            Ok(row) => match self.latest_checkpoint(run, session) {
                Err(error) => Err(error),
                Ok(latest_checkpoint) => Ok(
                    RunSnapshot {
                        run_id: run,
                        workspace_id: row.workspace_id,
                        task: row.task,
                        status: row.status,
                        stage: row.stage,
                        latest_checkpoint,
                        spec: row.spec,
                    },
                ),
            },
        }
    }

    /// The run, with its latest checkpoint.
    pub fn get_run(&self, run: RunId) -> (r: Result<RunSnapshot, StoreError>)
        ensures
            outcome(r) == run_snapshot(self@, run, None),
    {
        self.snapshot_for_session(run, None)
    }

    /// How many runs there are.
    pub fn run_count(&self) -> (r: usize)
        ensures
            r == self@.runs.len(),
    {
        self.runs.len()
    }

    /// How many checkpoints there are.
    pub fn total_checkpoint_count(&self) -> (r: usize)
        ensures
            r == self@.checkpoints.len(),
    {
        self.checkpoints.len()
    }

    /// How many checkpoints a run has.
    pub fn checkpoint_count(&self, run: RunId) -> (r: usize)
        ensures
            r == tally(self@.checkpoints, of_run(run)),
    {
        let ghost p = of_run(run);
        let mut count: usize = 0;
        let mut i: usize = 0;
        while i < self.checkpoints.len()
            invariant
                i <= self.checkpoints@.len(),
                p == of_run(run),
                count <= i,
                count == tally(self@.checkpoints.take(i as int), p),
            decreases self.checkpoints@.len() - i,
        {
            proof {
                lemma_tally_step(self@.checkpoints, p, i as int);
            }
            if self.checkpoints[i].run_id == run {
                count += 1;
            }
            i += 1;
        }
        assert(self@.checkpoints.take(i as int) =~= self@.checkpoints);
        count
    }
}

// --- opening a run ---------------------------------------------------------

/// The identifiers a new run may need.
#[derive(Clone, Copy)]
pub struct NewRun {
    pub run: RunId,
    pub session: SessionId,
    pub workspace: WorkspaceId,
    pub repository: RepositoryId,
}

impl NewRun {
    /// Being identifiers as they are drawn: each marked as a random one.
    pub open spec fn drawn(self) -> bool {
        &&& marked_random(self.run.0)
        &&& marked_random(self.session.0)
        &&& marked_random(self.workspace.0)
        &&& marked_random(self.repository.0)
    }

    /// Random identifiers.
    pub fn new() -> (r: Self)
        ensures
            r.drawn(),
    {
        NewRun {
            run: RunId::new(),
            session: SessionId::new(),
            workspace: WorkspaceId::new(),
            repository: RepositoryId::new(),
        }
    }
}

/// The refusal of a new run with no directory to work in.
pub open spec fn no_root() -> StoreErrorModel {
    StoreErrorModel::Domain(DomainErrorModel::MissingWorkspaceRoot)
}

/// The store with a session attached to a run.
pub open spec fn with_session(
    s: StoreModel,
    session: SessionId,
    run: RunId,
    harness: HarnessKind,
    hint: Option<Seq<char>>,
    now: Seq<char>,
    seen: Option<Seq<char>>,
) -> StoreModel {
    StoreModel {
        sessions: s.sessions.push(
            SessionRowModel {
                id: session,
                run_id: run,
                harness,
                external_session_hint: hint,
                started_at: now,
                last_seen_at: seen,
                ended_at: None,
            },
        ),
        ..s
    }
}

/// The store with a new run in it.
pub open spec fn with_run(
    s: StoreModel,
    run: RunId,
    workspace: WorkspaceId,
    task: Seq<char>,
    now: Seq<char>,
) -> StoreModel {
    StoreModel {
        runs: s.runs.push(
            RunRecordModel {
                id: run,
                workspace_id: workspace,
                task,
                status: RunStatus::Open,
                stage: WorkflowStage::Discovering,
                outcome: None,
                spec_change_id: None,
                current_task: None,
                created_at: now,
                updated_at: now,
            },
        ),
        ..s
    }
}

/// Attaching a session to a run that stands in the store, under an identifier of its own.
pub open spec fn attached(
    s: StoreModel,
    run: RunId,
    workspace: WorkspaceId,
    task: Seq<char>,
    stage: WorkflowStage,
    command: StartRunCommandModel,
    harness: HarnessKind,
    session: SessionId,
    now: Seq<char>,
) -> Result<(StartRunResultModel, StoreModel), StoreErrorModel> {
    if session_taken(s, session) {
        Err(taken("sessions.id"@))
    } else {
        match shown_checkpoint(s.checkpoints, run, Some(session)) {
            Err(error) => Err(error),
            Ok(latest_checkpoint) => Ok(
                (
                    StartRunResultModel {
                        run_id: run,
                        session_id: session,
                        workspace_id: workspace,
                        task,
                        stage,
                        latest_checkpoint,
                        instructions: Seq::empty(),
                    },
                    with_session(
                        s,
                        session,
                        run,
                        harness,
                        command.external_session_hint,
                        now,
                        None,
                    ),
                ),
            ),
        }
    }
}

/// What opening a run comes to where the operation is new.
pub open spec fn start_body(
    s: StoreModel,
    command: StartRunCommandModel,
    harness: HarnessKind,
    probe: Option<RepositoryProbeModel>,
    ids: NewRun,
    now: Seq<char>,
) -> Result<(StartRunResultModel, StoreModel), StoreErrorModel> {
    match command.resume_run_id {
        Some(run) => match loaded_run(s, run) {
            Err(error) => Err(error),
            Ok(row) => if row.status == RunStatus::Completed {
                Err(StoreErrorModel::RunClosed(run))
            } else {
                attached(
                    s,
                    run,
                    row.workspace_id,
                    row.task,
                    row.stage,
                    command,
                    harness,
                    ids.session,
                    now,
                )
            },
        },
        None => match probe {
            None => Err(no_root()),
            Some(found) => {
                let (resolved, known) = resolve_step(s, found, ids.workspace, ids.repository, now);
                match resolved {
                    Err(error) => Err(error),
                    Ok(place) => if run_taken(known, ids.run) {
                        Err(taken("runs.id"@))
                    } else {
                        attached(
                            with_run(known, ids.run, place.workspace_id, command.task, now),
                            ids.run,
                            place.workspace_id,
                            command.task,
                            WorkflowStage::Discovering,
                            command,
                            harness,
                            ids.session,
                            now,
                        )
                    },
                }
            },
        },
    }
}

/// The answer to opening a run.
pub open spec fn start_answer() -> spec_fn(StartRunResultModel) -> ResponseModel {
    |r: StartRunResultModel| ResponseModel::StartRun(r)
}

/// The recorded answer to opening a run.
pub open spec fn start_reading() -> spec_fn(ResponseModel) -> Option<StartRunResultModel> {
    |r: ResponseModel|
        match r {
            ResponseModel::StartRun(result) => Some(result),
            _ => None,
        }
}

/// Opening a run, or attaching a session to one.
pub open spec fn start_step(
    s: StoreModel,
    command: StartRunCommandModel,
    refusal: Option<DomainErrorModel>,
    harness: HarnessKind,
    probe: Option<RepositoryProbeModel>,
    ids: NewRun,
    now: Seq<char>,
) -> (Result<StartRunResultModel, StoreErrorModel>, StoreModel) {
    match refusal {
        Some(error) => (Err(StoreErrorModel::Domain(error)), s),
        None => if command.resume_run_id is None && command.workspace_roots.len() == 0 {
            (Err(no_root()), s)
        } else {
            executed(
                s,
                command.operation_id,
                RequestModel::StartRun(command),
                start_body(s, command, harness, probe, ids, now),
                start_answer(),
                start_reading(),
                now,
            )
        },
    }
}

impl Store {
    /// Attaches a session to a run.
    pub fn push_session(
        &mut self,
        session: SessionId,
        run: RunId,
        harness: HarnessKind,
        hint: Option<String>,
        now: &str,
        seen: Option<String>,
    )
        ensures
            final(self)@ == with_session(
                old(self)@,
                session,
                run,
                harness,
                hint.deep_view(),
                now@,
                seen.deep_view(),
            ),
    {
        let ghost before = self@;
        let row = SessionRow {
            id: session,
            run_id: run,
            harness,
            external_session_hint: hint,
            started_at: now.to_owned(),
            last_seen_at: seen,
            ended_at: None,
        };
        let ghost added = row@;
        self.sessions.push(row);
        assert(self@.sessions =~= before.sessions.push(added));
        assert(self@ =~= (StoreModel { sessions: before.sessions.push(added), ..before }));
    }

    /// Adds a new run.
    pub fn push_run(&mut self, run: RunId, workspace: WorkspaceId, task: &str, now: &str)
        ensures
            final(self)@ == with_run(old(self)@, run, workspace, task@, now@),
    {
        let ghost before = self@;
        let row = RunRecord {
            id: run,
            workspace_id: workspace,
            task: task.to_owned(),
            status: RunStatus::Open,
            stage: WorkflowStage::Discovering,
            outcome: None,
            spec_change_id: None,
            current_task: None,
            created_at: now.to_owned(),
            updated_at: now.to_owned(),
        };
        let ghost added = row@;
        self.runs.push(row);
        assert(self@.runs =~= before.runs.push(added));
        assert(self@ =~= (StoreModel { runs: before.runs.push(added), ..before }));
    }

    /// What opening a run comes to where the operation is new.
    fn start_new(
        &mut self,
        command: &StartRunCommand,
        harness: HarnessKind,
        probe: &Option<RepositoryProbe>,
        ids: NewRun,
        now: &str,
    ) -> (r: Result<StartRunResult, StoreError>)
        ensures
            match start_body(old(self)@, command@, harness, probe.deep_view(), ids, now@) {
                Ok((result, after)) => outcome(r) == Ok::<StartRunResultModel, StoreErrorModel>(
                    result,
                ) && final(self)@ == after,
                Err(error) => outcome(r) == Err::<StartRunResultModel, StoreErrorModel>(error)
                    && final(self)@ == old(self)@,
            },
    {
        let hint = copy_option(&command.external_session_hint);
        match command.resume_run_id {
            Some(run) => {
                let row = match self.load_run_row(run) {
                    Ok(row) => row,
                    Err(error) => {
                        return Err(error);
                    },
                };
                if row.status == RunStatus::Completed {
                    return Err(StoreError::RunClosed(run));
                }
                if self.has_session(ids.session) {
                    return Err(taken_error("sessions.id"));
                }
                match self.latest_checkpoint(run, Some(ids.session)) {
                    Err(error) => Err(error),
                    Ok(latest_checkpoint) => {
                        self.push_session(ids.session, run, harness, hint, now, None);
                        let instructions: Vec<String> = Vec::new();
                        assert(instructions.deep_view() =~= Seq::empty());
                        Ok(
                            StartRunResult {
                                run_id: run,
                                session_id: ids.session,
                                workspace_id: row.workspace_id,
                                task: row.task,
                                stage: row.stage,
                                latest_checkpoint,
                                instructions,
                            },
                        )
                    },
                }
            },
            None => match probe {
                None => Err(StoreError::Domain(DomainError::MissingWorkspaceRoot)),
                Some(found) => {
                    if let Some(error) = self.refused_place(found, ids.workspace, ids.repository) {
                        return Err(error);
                    }
                    if self.has_run(ids.run) {
                        return Err(taken_error("runs.id"));
                    }
                    if self.has_session(ids.session) {
                        return Err(taken_error("sessions.id"));
                    }
                    match self.latest_checkpoint(ids.run, Some(ids.session)) {
                        Err(error) => Err(error),
                        Ok(latest_checkpoint) => {
                            let resolved = self.record_place(
                                found,
                                ids.workspace,
                                ids.repository,
                                now,
                            );
                            self.push_run(
                                ids.run,
                                resolved.workspace_id,
                                command.task.as_str(),
                                now,
                            );
                            self.push_session(ids.session, ids.run, harness, hint, now, None);
                            let instructions: Vec<String> = Vec::new();
                            assert(instructions.deep_view() =~= Seq::empty());
                            Ok(
                                StartRunResult {
                                    run_id: ids.run,
                                    session_id: ids.session,
                                    workspace_id: resolved.workspace_id,
                                    task: copy_text(&command.task),
                                    stage: WorkflowStage::Discovering,
                                    latest_checkpoint,
                                    instructions,
                                },
                            )
                        },
                    }
                },
            },
        }
    }

    /// Opens a new run, or attaches a fresh session to an existing one, at a
    /// given time and with given identifiers.
    ///
    /// `refusal` is what the domain has against the command, and `probe` what
    /// the first workspace root turned out to be.
    pub fn start_run_at(
        &mut self,
        command: &StartRunCommand,
        refusal: &Option<DomainError>,
        harness: HarnessKind,
        probe: &Option<RepositoryProbe>,
        ids: NewRun,
        now: &str,
    ) -> (r: Result<StartRunResult, StoreError>)
        ensures
            (outcome(r), final(self)@) == start_step(
                old(self)@,
                command@,
                refusal.deep_view(),
                harness,
                probe.deep_view(),
                ids,
                now@,
            ),
    {
        if let Some(error) = refusal {
            return Err(StoreError::Domain(error.dup()));
        }
        assert(command.workspace_roots.deep_view().len() == command.workspace_roots@.len());
        if command.resume_run_id.is_none() && command.workspace_roots.len() == 0 {
            return Err(StoreError::Domain(DomainError::MissingWorkspaceRoot));
        }
        let request = Request::StartRun(command.dup());
        match self.lookup_operation(command.operation_id, &request) {
            Err(error) => {
                return Err(error);
            },
            Ok(Some(Response::StartRun(result))) => {
                return Ok(result);
            },
            Ok(Some(_)) => {
                return Err(
                    StoreError::Serialization(
                        "the recorded response answers another kind of request".to_owned(),
                    ),
                );
            },
            Ok(None) => {},
        }
        match self.start_new(command, harness, probe, ids, now) {
            Err(error) => Err(error),
            Ok(result) => {
                let response = Response::StartRun(result.dup());
                self.record_operation(command.operation_id, request, response, now);
                Ok(result)
            },
        }
    }

    /// Opens a new run, or attaches a fresh session to an existing one.
    ///
    /// The harness is supplied by the server, never by the client: a session
    /// must not be able to misreport which harness it is.
    pub fn start_run(
        &mut self,
        command: &StartRunCommand,
        refusal: &Option<DomainError>,
        harness: HarnessKind,
        probe: &Option<RepositoryProbe>,
    ) -> (r: Result<StartRunResult, StoreError>)
        ensures
            exists|ids: NewRun, now: Seq<char>|
                ids.drawn() && clock_text(now) && (outcome(r), final(self)@)
                    == #[trigger] start_step(
                    old(self)@,
                    command@,
                    refusal.deep_view(),
                    harness,
                    probe.deep_view(),
                    ids,
                    now,
                ),
    {
        let ids = NewRun::new();
        let now = Moment::now().text();
        self.start_run_at(command, refusal, harness, probe, ids, now.as_str())
    }
}

// --- checkpoints -----------------------------------------------------------

/// Being the session `id`.
pub open spec fn is_session(id: SessionId) -> spec_fn(SessionRowModel) -> bool {
    |row: SessionRowModel| row.id == id
}

/// A run at another stage.
pub open spec fn staged(stage: WorkflowStage, now: Seq<char>) -> spec_fn(
    RunRecordModel,
) -> RunRecordModel {
    |r: RunRecordModel| RunRecordModel { stage, updated_at: now, ..r }
}

/// The store with a checkpoint in it, and its run at the stage it names.
pub open spec fn with_checkpoint(
    s: StoreModel,
    command: CheckpointCommandModel,
    checkpoint: CheckpointId,
    now: Seq<char>,
) -> StoreModel {
    StoreModel {
        checkpoints: s.checkpoints.push(
            CheckpointRowModel {
                id: checkpoint,
                run_id: command.run_id,
                session_id: command.session_id,
                operation_id: command.operation_id,
                stage: command.stage,
                origin: command.origin,
                payload: command,
                created_at: now,
            },
        ),
        runs: changed(s.runs, is_run(command.run_id), staged(command.stage, now)),
        ..s
    }
}

/// The store with the binding a checkpoint carries.
pub open spec fn with_carried_binding(
    s: StoreModel,
    command: CheckpointCommandModel,
    now: Seq<char>,
    until: Seq<char>,
) -> StoreModel {
    match command.binding {
        Some(binding) => with_binding(s, command.run_id, binding, now, until),
        None => s,
    }
}

/// What writing to a run requires: the run is there and open, and so is the
/// session that writes.
pub open spec fn writable(s: StoreModel, run: RunId, session: SessionId) -> Result<
    RunViewModel,
    StoreErrorModel,
> {
    match loaded_run(s, run) {
        Err(error) => Err(error),
        Ok(row) => if row.status == RunStatus::Completed {
            Err(StoreErrorModel::RunClosed(run))
        } else if !any_row(s.sessions, is_session(session)) {
            Err(StoreErrorModel::SessionNotFound(session))
        } else {
            Ok(row)
        },
    }
}

/// What saving a checkpoint comes to where the operation is new.
///
/// The binding a checkpoint carries is written before its tick is resolved, so
/// one message can bind a run and close its first task. A tick that is refused
/// takes the whole checkpoint with it.
pub open spec fn checkpoint_body(
    s: StoreModel,
    command: CheckpointCommandModel,
    checkpoint: CheckpointId,
    now: Seq<char>,
    until: Seq<char>,
) -> Result<(CheckpointResultModel, StoreModel), StoreErrorModel> {
    match writable(s, command.run_id, command.session_id) {
        Err(error) => Err(error),
        Ok(row) => if checkpoint_taken(s, checkpoint) {
            Err(taken("checkpoints.id"@))
        } else {
            let bound = with_carried_binding(
                with_checkpoint(s, command, checkpoint, now),
                command,
                now,
                until,
            );
            let run = if command.binding is Some {
                loaded_run(bound, command.run_id)
            } else {
                Ok(row)
            };
            match run {
                Err(error) => Err(error),
                Ok(run_row) => match command.task_done {
                    None => Ok(
                        (
                            CheckpointResultModel {
                                checkpoint_id: checkpoint,
                                run_id: command.run_id,
                                stage: command.stage,
                                task: None,
                            },
                            bound,
                        ),
                    ),
                    Some(done) => match close_task_step(
                        bound,
                        command.run_id,
                        run_row,
                        done,
                        now,
                    ) {
                        Err(error) => Err(error),
                        Ok((task, after)) => Ok(
                            (
                                CheckpointResultModel {
                                    checkpoint_id: checkpoint,
                                    run_id: command.run_id,
                                    stage: command.stage,
                                    task: Some(task),
                                },
                                after,
                            ),
                        ),
                    },
                },
            }
        },
    }
}

/// The answer to a checkpoint.
pub open spec fn checkpoint_answer() -> spec_fn(CheckpointResultModel) -> ResponseModel {
    |r: CheckpointResultModel| ResponseModel::Checkpoint(r)
}

/// The recorded answer to a checkpoint.
pub open spec fn checkpoint_reading() -> spec_fn(ResponseModel) -> Option<CheckpointResultModel> {
    |r: ResponseModel|
        match r {
            ResponseModel::Checkpoint(result) => Some(result),
            _ => None,
        }
}

/// Saving a checkpoint.
pub open spec fn checkpoint_step(
    s: StoreModel,
    command: CheckpointCommandModel,
    refusal: Option<DomainErrorModel>,
    checkpoint: CheckpointId,
    now: Seq<char>,
    until: Seq<char>,
) -> (Result<CheckpointResultModel, StoreErrorModel>, StoreModel) {
    match refusal {
        Some(error) => (Err(StoreErrorModel::Domain(error)), s),
        None => executed(
            s,
            command.operation_id,
            RequestModel::Checkpoint(command),
            checkpoint_body(s, command, checkpoint, now, until),
            checkpoint_answer(),
            checkpoint_reading(),
            now,
        ),
    }
}

/// The refusal of a clock that leaves no room for a lease.
pub open spec fn clock_out_of_range() -> StoreErrorModel {
    StoreErrorModel::Database("the clock is out of range"@)
}

impl Store {
    /// Whether a session is known.
    pub fn session_exists(&self, session: SessionId) -> (r: bool)
        ensures
            r == any_row(self@.sessions, is_session(session)),
    {
        let mut i: usize = 0;
        while i < self.sessions.len()
            invariant
                i <= self.sessions@.len(),
                forall|j: int| 0 <= j < i ==> !is_session(session)(#[trigger] self@.sessions[j]),
            decreases self.sessions@.len() - i,
        {
            if self.sessions[i].id == session {
                assert(is_session(session)(self@.sessions[i as int]));
                return true;
            }
            i += 1;
        }
        false
    }

    /// The refusal of a session that is not known.
    pub fn assert_session_exists(&self, session: SessionId) -> (r: Result<(), StoreError>)
        ensures
            any_row(self@.sessions, is_session(session)) ==> r is Ok,
            !any_row(self@.sessions, is_session(session)) ==> outcome(r) == Err::<
                (),
                StoreErrorModel,
            >(StoreErrorModel::SessionNotFound(session)),
    {
        if self.session_exists(session) {
            Ok(())
        } else {
            Err(StoreError::SessionNotFound(session))
        }
    }

    fn check_writable(&self, run: RunId, session: SessionId) -> (r: Result<RunView, StoreError>)
        ensures
            outcome(r) == writable(self@, run, session),
    {
        match self.load_run_row(run) {
            Err(error) => Err(error),
            Ok(row) => {
                if row.status == RunStatus::Completed {
                    return Err(StoreError::RunClosed(run));
                }
                match self.assert_session_exists(session) {
                    Err(error) => Err(error),
                    Ok(()) => Ok(row),
                }
            },
        }
    }

    fn stage_rows(&mut self, run: RunId, stage: WorkflowStage, now: &str)
        ensures
            final(self)@ == (StoreModel {
                runs: changed(old(self)@.runs, is_run(run), staged(stage, now@)),
                ..old(self)@
            }),
    {
        let ghost before = self@;
        let ghost after = changed(before.runs, is_run(run), staged(stage, now@));
        let mut i: usize = 0;
        while i < self.runs.len()
            invariant
                i <= self.runs@.len(),
                self.runs@.len() == before.runs.len(),
                after == changed(before.runs, is_run(run), staged(stage, now@)),
                self@ == (StoreModel { runs: self@.runs, ..before }),
                self@.runs =~= after.take(i as int) + before.runs.skip(i as int),
            decreases self.runs@.len() - i,
        {
            let ghost rows = self@.runs;
            assert(rows[i as int] == before.runs[i as int]);
            if self.runs[i].id == run {
                self.runs[i].stage = stage;
                self.runs[i].updated_at = now.to_owned();
            }
            assert(self@.runs[i as int] == after[i as int]);
            assert(self@.runs =~= rows.update(i as int, after[i as int]));
            i += 1;
        }
        assert(self@.runs =~= after);
    }

    fn push_checkpoint(&mut self, command: &CheckpointCommand, checkpoint: CheckpointId, now: &str)
        ensures
            final(self)@ == with_checkpoint(old(self)@, command@, checkpoint, now@),
    {
        let ghost before = self@;
        let row = CheckpointRow {
            id: checkpoint,
            run_id: command.run_id,
            session_id: command.session_id,
            operation_id: command.operation_id,
            stage: command.stage,
            origin: command.origin,
            payload: command.dup(),
            created_at: now.to_owned(),
        };
        let ghost added = row@;
        self.checkpoints.push(row);
        assert(self@.checkpoints =~= before.checkpoints.push(added));
        assert(self@ =~= (StoreModel {
            checkpoints: before.checkpoints.push(added),
            ..before
        }));
        self.stage_rows(command.run_id, command.stage, now);
    }

    /// What saving a checkpoint comes to where the operation is new.
    fn checkpoint_new(
        &mut self,
        command: &CheckpointCommand,
        checkpoint: CheckpointId,
        now: &str,
        until: &str,
    ) -> (r: Result<CheckpointResult, StoreError>)
        ensures
            match checkpoint_body(old(self)@, command@, checkpoint, now@, until@) {
                Ok((result, after)) => outcome(r) == Ok::<CheckpointResultModel, StoreErrorModel>(
                    result,
                ) && final(self)@ == after,
                Err(error) => outcome(r) == Err::<CheckpointResultModel, StoreErrorModel>(error)
                    && final(self)@ == old(self)@,
            },
    {
        let row = match self.check_writable(command.run_id, command.session_id) {
            Ok(row) => row,
            Err(error) => {
                return Err(error);
            },
        };
        if self.has_checkpoint(checkpoint) {
            return Err(taken_error("checkpoints.id"));
        }
        // What is written below goes with the tick when the tick is refused.
        let backup = self.dup();
        self.push_checkpoint(command, checkpoint, now);
        let run = match &command.binding {
            Some(binding) => {
                let written = self.write_binding(command.run_id, binding, now, until);
                proof {
                    lemma_run_kept(old(self)@.runs, command.run_id, staged(command.stage, now@));
                }
                match written {
                    Ok(()) => {},
                    Err(error) => {
                        *self = backup;
                        return Err(error);
                    },
                }
                match self.load_run_row(command.run_id) {
                    Ok(again) => again,
                    Err(error) => {
                        *self = backup;
                        return Err(error);
                    },
                }
            },
            None => row,
        };
        let task = match &command.task_done {
            None => None,
            Some(done) => match self.close_task(command.run_id, &run, done, now) {
                Ok(closed) => Some(closed),
                Err(error) => {
                    *self = backup;
                    return Err(error);
                },
            },
        };
        Ok(
            CheckpointResult {
                checkpoint_id: checkpoint,
                run_id: command.run_id,
                stage: command.stage,
                task,
            },
        )
    }

    /// Persists a checkpoint and advances the run's stage, at a given time and
    /// under a given identifier.
    pub fn save_checkpoint_at(
        &mut self,
        command: &CheckpointCommand,
        refusal: &Option<DomainError>,
        checkpoint: CheckpointId,
        now: Moment,
    ) -> (r: Result<CheckpointResult, StoreError>)
        requires
            now.regular(),
            now.reaches(task_lease()),
        ensures
            (outcome(r), final(self)@) == checkpoint_step(
                old(self)@,
                command@,
                refusal.deep_view(),
                checkpoint,
                now.written(),
                now.plus(task_lease()).written(),
            ),
    {
        if let Some(error) = refusal {
            return Err(StoreError::Domain(error.dup()));
        }
        let request = Request::Checkpoint(command.dup());
        match self.lookup_operation(command.operation_id, &request) {
            Err(error) => {
                return Err(error);
            },
            Ok(Some(Response::Checkpoint(result))) => {
                return Ok(result);
            },
            Ok(Some(_)) => {
                return Err(
                    StoreError::Serialization(
                        "the recorded response answers another kind of request".to_owned(),
                    ),
                );
            },
            Ok(None) => {},
        }
        let written = now.text();
        let until = now.after(task_lease_span()).text();
        match self.checkpoint_new(command, checkpoint, written.as_str(), until.as_str()) {
            Err(error) => Err(error),
            Ok(result) => {
                let response = Response::Checkpoint(result.dup());
                self.record_operation(
                    command.operation_id,
                    request,
                    response,
                    written.as_str(),
                );
                Ok(result)
            },
        }
    }

    /// Persists a checkpoint and advances the run's stage.
    ///
    /// A `binding` on the command is applied with it, before its `task_done` is
    /// resolved. A tick that is refused takes the whole checkpoint with it.
    pub fn save_checkpoint(
        &mut self,
        command: &CheckpointCommand,
        refusal: &Option<DomainError>,
    ) -> (r: Result<CheckpointResult, StoreError>)
        ensures
            exists|checkpoint: CheckpointId, now: Moment|
                {
                    let saved = #[trigger] checkpoint_step(
                        old(self)@,
                        command@,
                        refusal.deep_view(),
                        checkpoint,
                        now.written(),
                        now.plus(task_lease()).written(),
                    );
                    &&& marked_random(checkpoint.0)
                    &&& on_the_clock(now)
                    &&& (outcome(r), final(self)@) == if now.reaches(task_lease()) {
                        saved
                    } else {
                        (Err(clock_out_of_range()), old(self)@)
                    }
                },
    {
        let checkpoint = CheckpointId::new();
        let now = Moment::now();
        let ghost saved = checkpoint_step(
            self@,
            command@,
            refusal.deep_view(),
            checkpoint,
            now.written(),
            now.plus(task_lease()).written(),
        );
        if !now.can_reach(task_lease_span()) {
            return Err(StoreError::Database("the clock is out of range".to_owned()));
        }
        self.save_checkpoint_at(command, refusal, checkpoint, now)
    }
}

/// A change that keeps the identifiers of runs keeps the runs there are.
proof fn lemma_run_kept(
    runs: Seq<RunRecordModel>,
    run: RunId,
    f: spec_fn(RunRecordModel) -> RunRecordModel,
)
    requires
        forall|r: RunRecordModel| (#[trigger] f(r)).id == r.id,
    ensures
        any_row(runs, is_run(run)) == any_row(changed(runs, is_run(run), f), is_run(run)),
{
    let after = changed(runs, is_run(run), f);
    if any_row(runs, is_run(run)) {
        let i = choose|i: int| 0 <= i < runs.len() && is_run(run)(#[trigger] runs[i]);
        assert(is_run(run)(after[i]));
    }
    if any_row(after, is_run(run)) {
        let i = choose|i: int| 0 <= i < after.len() && is_run(run)(#[trigger] after[i]);
        assert(is_run(run)(runs[i]));
    }
}

// --- finishing -------------------------------------------------------------

/// Being the session `id`, and not ended.
pub open spec fn is_live_session(id: SessionId) -> spec_fn(SessionRowModel) -> bool {
    |row: SessionRowModel| row.id == id && row.ended_at is None
}

/// A session that has ended.
pub open spec fn ended(now: Seq<char>) -> spec_fn(SessionRowModel) -> SessionRowModel {
    |row: SessionRowModel| SessionRowModel { ended_at: Some(now), ..row }
}

/// A completed run.
pub open spec fn completed(result: Seq<char>, now: Seq<char>) -> spec_fn(
    RunRecordModel,
) -> RunRecordModel {
    |r: RunRecordModel|
        RunRecordModel {
            status: RunStatus::Completed,
            stage: WorkflowStage::Completed,
            outcome: Some(result),
            updated_at: now,
            ..r
        }
}

/// What finishing comes to where the operation is new.
pub open spec fn finish_body(
    s: StoreModel,
    command: FinishRunCommandModel,
    now: Seq<char>,
) -> Result<(FinishRunResultModel, StoreModel), StoreErrorModel> {
    match writable(s, command.run_id, command.session_id) {
        Err(error) => Err(error),
        Ok(_) => {
            let closed = StoreModel {
                sessions: changed(s.sessions, is_live_session(command.session_id), ended(now)),
                ..s
            };
            let (status, after) = match command.action {
                FinishAction::CloseSession => (RunStatus::Open, closed),
                FinishAction::CompleteRun => (
                    RunStatus::Completed,
                    StoreModel {
                        runs: changed(
                            closed.runs,
                            is_run(command.run_id),
                            completed(command.outcome, now),
                        ),
                        ..closed
                    },
                ),
            };
            Ok(
                (
                    FinishRunResultModel {
                        run_id: command.run_id,
                        session_id: command.session_id,
                        status,
                        session_closed: true,
                        outcome: command.outcome,
                    },
                    after,
                ),
            )
        },
    }
}

/// The answer to finishing.
pub open spec fn finish_answer() -> spec_fn(FinishRunResultModel) -> ResponseModel {
    |r: FinishRunResultModel| ResponseModel::Finish(r)
}

/// The recorded answer to finishing.
pub open spec fn finish_reading() -> spec_fn(ResponseModel) -> Option<FinishRunResultModel> {
    |r: ResponseModel|
        match r {
            ResponseModel::Finish(result) => Some(result),
            _ => None,
        }
}

/// Ending a session, or completing its run.
pub open spec fn finish_step(
    s: StoreModel,
    command: FinishRunCommandModel,
    refusal: Option<DomainErrorModel>,
    now: Seq<char>,
) -> (Result<FinishRunResultModel, StoreErrorModel>, StoreModel) {
    match refusal {
        Some(error) => (Err(StoreErrorModel::Domain(error)), s),
        None => executed(
            s,
            command.operation_id,
            RequestModel::Finish(command),
            finish_body(s, command, now),
            finish_answer(),
            finish_reading(),
            now,
        ),
    }
}

impl Store {
    fn end_rows(&mut self, session: SessionId, now: &str)
        ensures
            final(self)@ == (StoreModel {
                sessions: changed(old(self)@.sessions, is_live_session(session), ended(now@)),
                ..old(self)@
            }),
    {
        let ghost before = self@;
        let ghost after = changed(before.sessions, is_live_session(session), ended(now@));
        let mut i: usize = 0;
        while i < self.sessions.len()
            invariant
                i <= self.sessions@.len(),
                self.sessions@.len() == before.sessions.len(),
                after == changed(before.sessions, is_live_session(session), ended(now@)),
                self@ == (StoreModel { sessions: self@.sessions, ..before }),
                self@.sessions =~= after.take(i as int) + before.sessions.skip(i as int),
            decreases self.sessions@.len() - i,
        {
            let ghost rows = self@.sessions;
            assert(rows[i as int] == before.sessions[i as int]);
            if self.sessions[i].id == session && self.sessions[i].ended_at.is_none() {
                self.sessions[i].ended_at = Some(now.to_owned());
            }
            assert(self@.sessions[i as int] == after[i as int]);
            assert(self@.sessions =~= rows.update(i as int, after[i as int]));
            i += 1;
        }
        assert(self@.sessions =~= after);
    }

    fn complete_rows(&mut self, run: RunId, result: &str, now: &str)
        ensures
            final(self)@ == (StoreModel {
                runs: changed(old(self)@.runs, is_run(run), completed(result@, now@)),
                ..old(self)@
            }),
    {
        let ghost before = self@;
        let ghost after = changed(before.runs, is_run(run), completed(result@, now@));
        let mut i: usize = 0;
        while i < self.runs.len()
            invariant
                i <= self.runs@.len(),
                self.runs@.len() == before.runs.len(),
                after == changed(before.runs, is_run(run), completed(result@, now@)),
                self@ == (StoreModel { runs: self@.runs, ..before }),
                self@.runs =~= after.take(i as int) + before.runs.skip(i as int),
            decreases self.runs@.len() - i,
        {
            let ghost rows = self@.runs;
            assert(rows[i as int] == before.runs[i as int]);
            if self.runs[i].id == run {
                self.runs[i].status = RunStatus::Completed;
                self.runs[i].stage = WorkflowStage::Completed;
                self.runs[i].outcome = Some(result.to_owned());
                self.runs[i].updated_at = now.to_owned();
            }
            assert(self@.runs[i as int] == after[i as int]);
            assert(self@.runs =~= rows.update(i as int, after[i as int]));
            i += 1;
        }
        assert(self@.runs =~= after);
    }

    /// Closes a session, or completes the whole run, at a given time.
    pub fn finish_run_at(
        &mut self,
        command: &FinishRunCommand,
        refusal: &Option<DomainError>,
        now: &str,
    ) -> (r: Result<FinishRunResult, StoreError>)
        ensures
            (outcome(r), final(self)@) == finish_step(
                old(self)@,
                command@,
                refusal.deep_view(),
                now@,
            ),
    {
        if let Some(error) = refusal {
            return Err(StoreError::Domain(error.dup()));
        }
        let request = Request::Finish(command.dup());
        match self.lookup_operation(command.operation_id, &request) {
            Err(error) => {
                return Err(error);
            },
            Ok(Some(Response::Finish(result))) => {
                return Ok(result);
            },
            Ok(Some(_)) => {
                return Err(
                    StoreError::Serialization(
                        "the recorded response answers another kind of request".to_owned(),
                    ),
                );
            },
            Ok(None) => {},
        }
        match self.check_writable(command.run_id, command.session_id) {
            Err(error) => {
                return Err(error);
            },
            Ok(_) => {},
        }
        self.end_rows(command.session_id, now);
        let status = match command.action {
            FinishAction::CloseSession => RunStatus::Open,
            FinishAction::CompleteRun => {
                self.complete_rows(command.run_id, command.outcome.as_str(), now);
                RunStatus::Completed
            },
        };
        let result = FinishRunResult {
            run_id: command.run_id,
            session_id: command.session_id,
            status,
            session_closed: true,
            outcome: copy_text(&command.outcome),
        };
        let response = Response::Finish(result.dup());
        self.record_operation(command.operation_id, request, response, now);
        Ok(result)
    }

    /// Closes a session, or completes the whole run.
    pub fn finish_run(
        &mut self,
        command: &FinishRunCommand,
        refusal: &Option<DomainError>,
    ) -> (r: Result<FinishRunResult, StoreError>)
        ensures
            exists|now: Seq<char>|
                clock_text(now) && (outcome(r), final(self)@) == #[trigger] finish_step(
                    old(self)@,
                    command@,
                    refusal.deep_view(),
                    now,
                ),
    {
        let now = Moment::now().text();
        self.finish_run_at(command, refusal, now.as_str())
    }

    /// Points a run at the spec change it is executing, at a given time.
    pub fn bind_spec_at(&mut self, run: RunId, binding: &SpecBinding, now: Moment) -> (r: Result<
        (),
        StoreError,
    >)
        requires
            now.regular(),
            now.reaches(task_lease()),
        ensures
            match write_binding_step(
                old(self)@,
                run,
                binding@,
                now.written(),
                now.plus(task_lease()).written(),
            ) {
                Ok(after) => r is Ok && final(self)@ == after,
                Err(error) => outcome(r) == Err::<(), StoreErrorModel>(error) && final(self)@
                    == old(self)@,
            },
    {
        let written = now.text();
        let until = now.after(task_lease_span()).text();
        self.write_binding(run, binding, written.as_str(), until.as_str())
    }

    /// Points a run at the spec change it is executing.
    ///
    /// Every field is optional and `None` leaves what is stored alone, so
    /// advancing to the next task is a one-field call.
    pub fn bind_spec(&mut self, run: RunId, binding: &SpecBinding) -> (r: Result<(), StoreError>)
        ensures
            exists|now: Moment|
                {
                    let written = #[trigger] write_binding_step(
                        old(self)@,
                        run,
                        binding@,
                        now.written(),
                        now.plus(task_lease()).written(),
                    );
                    &&& on_the_clock(now)
                    &&& (outcome(r), final(self)@) == if now.reaches(task_lease()) {
                        match written {
                            Ok(after) => (Ok(()), after),
                            Err(error) => (Err(error), old(self)@),
                        }
                    } else {
                        (Err(clock_out_of_range()), old(self)@)
                    }
                },
    {
        let now = Moment::now();
        let ghost written = write_binding_step(
            self@,
            run,
            binding@,
            now.written(),
            now.plus(task_lease()).written(),
        );
        if !now.can_reach(task_lease_span()) {
            return Err(StoreError::Database("the clock is out of range".to_owned()));
        }
        self.bind_spec_at(run, binding, now)
    }
}

} // verus!
