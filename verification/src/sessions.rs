//! Binding a harness session to a run.
//!
//! Hooks only know the harness's own identifier for a session. Everything they
//! record is attributed through it.

use vstd::prelude::*;

use crate::domain::{
    CheckpointCommand, CheckpointCommandModel, CheckpointSnapshotModel, FileLedgerEntry,
    FileLedgerEntryModel, RunSnapshot, RunSnapshotModel, StartRunCommand, StartRunCommandModel,
    StartRunResult, StartRunResultModel,
};
use crate::error::{outcome, DomainError, DomainErrorModel, StoreError, StoreErrorModel};
use crate::git::{RepositoryProbe, RepositoryProbeModel};
use crate::ids::{CheckpointId, OperationId, RunId, SessionId, WorkspaceId};
use crate::keys::{run_taken, session_taken, taken, taken_error};
use crate::ledger::{append_step, ledger_listing};
use crate::moment::{clock_text, on_the_clock, Moment};
use crate::order::{arrange, arranged, row_numbers, Arrangement, KeyModel, SortKey};
use crate::outside::marked_random;
use crate::plan::{
    is_run, latest_first, seen_keys, task_lease, task_lease_span,
};
use crate::repositories::resolve_step;
use crate::rows::{any_row, changed, first_row, lemma_tally_step, tally};
use crate::states::{CheckpointOrigin, HarnessKind, RunStatus, WorkflowStage};
use crate::store::{
    checkpoint_step, clock_out_of_range, ended, is_session, run_snapshot,
    start_step, with_run, with_session, NewRun,
};
use crate::tables::{
    AgentRow, AgentRowModel, CheckpointRowModel, LedgerRowModel, NoticeRow, NoticeRowModel,
    RunRecordModel, SessionRowModel, Store, StoreModel,
};
use crate::text::{
    characters, copy_option, copy_text, join, joined, keep_filled, same, split_at_white,
    text_between, trim, trim_end, trimmed, trimmed_end, words,
};

verus! {

/// How many edits a run carries before its silence is worth remarking on.
pub const REASONING_EDIT_THRESHOLD: usize = 10;

/// A harness session attached to a run.
#[derive(Clone, Copy, Debug, PartialEq, Eq, Structural)]
pub struct SessionBinding {
    pub run_id: RunId,
    pub session_id: SessionId,
    pub workspace_id: WorkspaceId,
    /// True when this binding had to open a new run rather than join one.
    pub opened_run: bool,
}

impl View for SessionBinding {
    type V = SessionBinding;

    open spec fn view(&self) -> SessionBinding {
        *self
    }
}

impl DeepView for SessionBinding {
    type V = SessionBinding;

    open spec fn deep_view(&self) -> SessionBinding {
        *self
    }
}

// --- the session behind a hint ---------------------------------------------

/// Sessions ordered by when they started.
pub open spec fn start_keys(sessions: Seq<SessionRowModel>) -> Seq<KeyModel> {
    Seq::new(
        sessions.len(),
        |i: int| KeyModel { rank: 0, weight: 0, text: sessions[i].started_at },
    )
}

/// The sessions a harness has an identifier for.
pub open spec fn hinted(sessions: Seq<SessionRowModel>, hint: Seq<char>) -> Seq<bool> {
    Seq::new(sessions.len(), |i: int| sessions[i].external_session_hint == Some(hint))
}

/// The sessions a harness has an identifier for, whose run is known.
pub open spec fn hinted_with_run(s: StoreModel, hint: Seq<char>) -> Seq<bool> {
    Seq::new(
        s.sessions.len(),
        |i: int|
            s.sessions[i].external_session_hint == Some(hint) && any_row(
                s.runs,
                is_run(s.sessions[i].run_id),
            ),
    )
}

/// The session a harness identifier stands for: the one started last.
pub open spec fn session_behind(s: StoreModel, hint: Seq<char>) -> Option<SessionId> {
    let order = arranged(start_keys(s.sessions), hinted(s.sessions, hint), latest_first());
    if order.len() > 0 {
        Some(s.sessions[order[0]].id)
    } else {
        None
    }
}

/// The run a harness session is attached to.
pub open spec fn bound_to(s: StoreModel, hint: Seq<char>) -> Option<SessionBinding> {
    let order = arranged(start_keys(s.sessions), hinted_with_run(s, hint), latest_first());
    if order.len() > 0 {
        let session = s.sessions[order[0]];
        Some(
            SessionBinding {
                run_id: session.run_id,
                session_id: session.id,
                workspace_id: first_row(s.runs, is_run(session.run_id))->0.workspace_id,
                opened_run: false,
            },
        )
    } else {
        None
    }
}

/// The run a harness session belongs to.
pub open spec fn run_behind(s: StoreModel, hint: Seq<char>) -> Option<RunId> {
    match bound_to(s, hint) {
        Some(binding) => Some(binding.run_id),
        None => None,
    }
}

/// Recording an edit of a harness session against the run it belongs to. Without one nothing is
/// recorded.
pub open spec fn edit_behind_step(s: StoreModel, hint: Seq<char>, entry: FileLedgerEntryModel) -> (
    Result<(), StoreErrorModel>,
    StoreModel,
) {
    match bound_to(s, hint) {
        None => (Ok(()), s),
        Some(binding) => match append_step(s, binding.run_id, binding.session_id, entry) {
            Ok(after) => (Ok(()), after),
            Err(error) => (Err(error), s),
        },
    }
}

/// The paths edited during the run a harness session belongs to.
pub open spec fn edits_behind(s: StoreModel, hint: Seq<char>, limit: nat) -> Result<
    Seq<FileLedgerEntryModel>,
    StoreErrorModel,
> {
    match bound_to(s, hint) {
        Some(binding) => ledger_listing(s, binding.run_id, limit),
        None => Ok(Seq::empty()),
    }
}

impl Store {
    fn start_sort_keys(&self) -> (r: Vec<SortKey>)
        ensures
            r.deep_view() == start_keys(self@.sessions),
            r@.len() == self.sessions@.len(),
    {
        let ghost all = start_keys(self@.sessions);
        let mut r: Vec<SortKey> = Vec::new();
        let mut i: usize = 0;
        while i < self.sessions.len()
            invariant
                i <= self.sessions@.len(),
                all == start_keys(self@.sessions),
                r.deep_view() =~= all.take(i as int),
            decreases self.sessions@.len() - i,
        {
            let key = SortKey {
                rank: 0,
                weight: 0,
                text: copy_text(&self.sessions[i].started_at),
            };
            assert(key@ == all[i as int]);
            let ghost listed = r.deep_view();
            r.push(key);
            assert(r.deep_view() =~= listed.push(all[i as int]));
            i += 1;
        }
        assert(all.take(i as int) =~= all);
        r
    }

    fn has_hint(&self, i: usize, hint: &str) -> (r: bool)
        requires
            i < self.sessions@.len(),
        ensures
            r == (self@.sessions[i as int].external_session_hint == Some(hint@)),
    {
        match &self.sessions[i].external_session_hint {
            Some(known) => same(known.as_str(), hint),
            None => false,
        }
    }

    /// The session a harness identifier stands for.
    pub fn session_of_hint(&self, hint: &str) -> (r: Option<SessionId>)
        ensures
            r == session_behind(self@, hint@),
    {
        let ghost all = hinted(self@.sessions, hint@);
        let mut selected: Vec<bool> = Vec::new();
        let mut i: usize = 0;
        while i < self.sessions.len()
            invariant
                i <= self.sessions@.len(),
                all == hinted(self@.sessions, hint@),
                selected@ =~= all.take(i as int),
            decreases self.sessions@.len() - i,
        {
            selected.push(self.has_hint(i, hint));
            i += 1;
        }
        assert(all.take(i as int) =~= all);
        let keys = self.start_sort_keys();
        let order = arrange(
            &keys,
            &selected,
            Arrangement { text_descending: true, newest_row_first: false },
        );
        if order.len() > 0 {
            assert(row_numbers(order@)[0] == order@[0] as int);
            Some(self.sessions[order[0]].id)
        } else {
            None
        }
    }

    /// The run this harness session is already attached to, if any.
    pub fn binding_for_external_session(&self, hint: &str) -> (r: Option<SessionBinding>)
        ensures
            r == bound_to(self@, hint@),
    {
        let ghost all = hinted_with_run(self@, hint@);
        let mut selected: Vec<bool> = Vec::new();
        let mut i: usize = 0;
        while i < self.sessions.len()
            invariant
                i <= self.sessions@.len(),
                all == hinted_with_run(self@, hint@),
                selected@ =~= all.take(i as int),
            decreases self.sessions@.len() - i,
        {
            selected.push(
                self.has_hint(i, hint) && self.run_index(self.sessions[i].run_id).is_some(),
            );
            i += 1;
        }
        assert(all.take(i as int) =~= all);
        let keys = self.start_sort_keys();
        let order = arrange(
            &keys,
            &selected,
            Arrangement { text_descending: true, newest_row_first: false },
        );
        if order.len() == 0 {
            return None;
        }
        assert(row_numbers(order@)[0] == order@[0] as int);
        assert(selected@[row_numbers(order@)[0]]);
        let session = &self.sessions[order[0]];
        match self.run_index(session.run_id) {
            Some(k) => Some(
                SessionBinding {
                    run_id: session.run_id,
                    session_id: session.id,
                    workspace_id: self.runs[k].workspace_id,
                    opened_run: false,
                },
            ),
            None => None,
        }
    }

    /// The run this harness session belongs to.
    pub fn run_for_external_session(&self, hint: &str) -> (r: Option<RunId>)
        ensures
            r == run_behind(self@, hint@),
    {
        match self.binding_for_external_session(hint) {
            Some(binding) => Some(binding.run_id),
            None => None,
        }
    }

    /// Records one observed change of a file against whatever run this session
    /// belongs to. A session with no run silently records nothing.
    pub fn append_ledger_for_external_session(&mut self, hint: &str, entry: &FileLedgerEntry) -> (r:
        Result<(), StoreError>)
        requires
            entry.observed_at.valid(),
        ensures
            (outcome(r), final(self)@) == edit_behind_step(old(self)@, hint@, entry@),
    {
        match self.binding_for_external_session(hint) {
            Some(binding) => self.append_ledger(binding.run_id, binding.session_id, entry),
            None => Ok(()),
        }
    }

    /// Distinct paths edited during the run this session belongs to, most recent
    /// first.
    pub fn ledger_for_external_session(&self, hint: &str, limit: usize) -> (r: Result<
        Vec<FileLedgerEntry>,
        StoreError,
    >)
        ensures
            outcome(r) == edits_behind(self@, hint@, limit as nat),
    {
        match self.binding_for_external_session(hint) {
            Some(binding) => self.ledger(binding.run_id, limit),
            None => {
                let nothing: Vec<FileLedgerEntry> = Vec::new();
                assert(nothing.deep_view() =~= Seq::empty());
                Ok(nothing)
            },
        }
    }
}

// --- the run in flight -----------------------------------------------------

/// Runs ordered by when they were last touched.
pub open spec fn touched_keys(runs: Seq<RunRecordModel>) -> Seq<KeyModel> {
    Seq::new(runs.len(), |i: int| KeyModel { rank: 0, weight: 0, text: runs[i].updated_at })
}

/// The open runs of a workspace.
pub open spec fn open_runs_of(runs: Seq<RunRecordModel>, workspace: WorkspaceId) -> Seq<bool> {
    Seq::new(
        runs.len(),
        |i: int| runs[i].workspace_id == workspace && runs[i].status == RunStatus::Open,
    )
}

/// Greatest text first; of equal ones the row written last.
pub open spec fn newest_first() -> Arrangement {
    Arrangement { text_descending: true, newest_row_first: true }
}

/// The open run of a workspace that was touched last.
pub open spec fn run_in_flight(s: StoreModel, workspace: WorkspaceId) -> Option<RunId> {
    let order = arranged(touched_keys(s.runs), open_runs_of(s.runs, workspace), newest_first());
    if order.len() > 0 {
        Some(s.runs[order[0]].id)
    } else {
        None
    }
}

impl Store {
    /// What the runs are ordered by.
    pub fn touched_sort_keys(&self) -> (r: Vec<SortKey>)
        ensures
            r.deep_view() == touched_keys(self@.runs),
            r@.len() == self.runs@.len(),
    {
        let ghost all = touched_keys(self@.runs);
        let mut r: Vec<SortKey> = Vec::new();
        let mut i: usize = 0;
        while i < self.runs.len()
            invariant
                i <= self.runs@.len(),
                all == touched_keys(self@.runs),
                r.deep_view() =~= all.take(i as int),
            decreases self.runs@.len() - i,
        {
            let key = SortKey { rank: 0, weight: 0, text: copy_text(&self.runs[i].updated_at) };
            assert(key@ == all[i as int]);
            let ghost listed = r.deep_view();
            r.push(key);
            assert(r.deep_view() =~= listed.push(all[i as int]));
            i += 1;
        }
        assert(all.take(i as int) =~= all);
        r
    }

    /// The workspace's most recently touched open run.
    pub fn latest_open_run(&self, workspace: WorkspaceId) -> (r: Option<RunId>)
        ensures
            r == run_in_flight(self@, workspace),
    {
        let ghost all = open_runs_of(self@.runs, workspace);
        let mut selected: Vec<bool> = Vec::new();
        let mut i: usize = 0;
        while i < self.runs.len()
            invariant
                i <= self.runs@.len(),
                all == open_runs_of(self@.runs, workspace),
                selected@ =~= all.take(i as int),
            decreases self.runs@.len() - i,
        {
            selected.push(
                self.runs[i].workspace_id == workspace && self.runs[i].status == RunStatus::Open,
            );
            i += 1;
        }
        assert(all.take(i as int) =~= all);
        let keys = self.touched_sort_keys();
        let order = arrange(
            &keys,
            &selected,
            Arrangement { text_descending: true, newest_row_first: true },
        );
        if order.len() > 0 {
            assert(row_numbers(order@)[0] == order@[0] as int);
            Some(self.runs[order[0]].id)
        } else {
            None
        }
    }
}

// --- titles ----------------------------------------------------------------

/// How long a run title may be.
pub const TITLE_LIMIT: usize = 160;

/// A run title out of a raw prompt: its words on one line, cut where it is too
/// long.
pub open spec fn title_of(task: Seq<char>) -> Seq<char> {
    let line = joined(words(task), " "@);
    if line.len() <= TITLE_LIMIT {
        line
    } else {
        trimmed_end(line.take(TITLE_LIMIT as int)) + "…"@
    }
}

/// A run title comes from a raw prompt, which can be a page long. The run only
/// needs something recognisable.
pub fn truncate_task(task: &str) -> (r: String)
    ensures
        r@ == title_of(task@),
{
    let line = join(&keep_filled(split_at_white(task)), " ");
    let chars = characters(line.as_str());
    if chars.len() <= TITLE_LIMIT {
        return line;
    }
    let start = text_between(&chars, 0, TITLE_LIMIT);
    assert(start@ =~= line@.take(TITLE_LIMIT as int));
    let mut r = trim_end(start.as_str());
    r.append("…");
    r
}

// --- attaching -------------------------------------------------------------

/// The binding of a session that was attached just now.
pub open spec fn fresh_binding(
    run: RunId,
    session: SessionId,
    workspace: WorkspaceId,
    opened_run: bool,
) -> SessionBinding {
    SessionBinding { run_id: run, session_id: session, workspace_id: workspace, opened_run }
}

/// Attaching a harness session to a run that stands in the store, under an identifier of its
/// own. Where that one is taken, everything stays as it was before.
pub open spec fn bound_fresh(
    s: StoreModel,
    known: StoreModel,
    hint: Seq<char>,
    run: RunId,
    workspace: WorkspaceId,
    opened_run: bool,
    harness: HarnessKind,
    session: SessionId,
    now: Seq<char>,
) -> (Result<SessionBinding, StoreErrorModel>, StoreModel) {
    if session_taken(known, session) {
        (Err(taken("sessions.id"@)), s)
    } else {
        (
            Ok(fresh_binding(run, session, workspace, opened_run)),
            with_session(known, session, run, harness, Some(hint), now, Some(now)),
        )
    }
}

/// Attaching a harness session to the open run of its workspace. Where nothing
/// is in flight nothing is written, not even the repository.
pub open spec fn attach_step(
    s: StoreModel,
    hint: Seq<char>,
    probe: RepositoryProbeModel,
    harness: HarnessKind,
    ids: NewRun,
    now: Seq<char>,
) -> (Result<Option<SessionBinding>, StoreErrorModel>, StoreModel) {
    match bound_to(s, hint) {
        Some(existing) => (Ok(Some(existing)), s),
        None => {
            let (resolved, known) = resolve_step(s, probe, ids.workspace, ids.repository, now);
            match resolved {
                Err(error) => (Err(error), s),
                Ok(place) => match run_in_flight(known, place.workspace_id) {
                    None => (Ok(None), s),
                    Some(run) => {
                        let (bound, after) = bound_fresh(
                            s,
                            known,
                            hint,
                            run,
                            place.workspace_id,
                            false,
                            harness,
                            ids.session,
                            now,
                        );
                        match bound {
                            Err(error) => (Err(error), after),
                            Ok(binding) => (Ok(Some(binding)), after),
                        }
                    },
                },
            }
        },
    }
}

/// Attaching a harness session to the open run of its workspace, opening one
/// titled after the prompt when there is none.
pub open spec fn bind_session_step(
    s: StoreModel,
    hint: Seq<char>,
    probe: RepositoryProbeModel,
    task: Seq<char>,
    harness: HarnessKind,
    ids: NewRun,
    now: Seq<char>,
) -> (Result<SessionBinding, StoreErrorModel>, StoreModel) {
    match bound_to(s, hint) {
        Some(existing) => (Ok(existing), s),
        None => {
            let (resolved, known) = resolve_step(s, probe, ids.workspace, ids.repository, now);
            match resolved {
                Err(error) => (Err(error), s),
                Ok(place) => match run_in_flight(known, place.workspace_id) {
                    Some(run) => bound_fresh(
                        s,
                        known,
                        hint,
                        run,
                        place.workspace_id,
                        false,
                        harness,
                        ids.session,
                        now,
                    ),
                    None => if run_taken(known, ids.run) {
                        (Err(taken("runs.id"@)), s)
                    } else {
                        bound_fresh(
                            s,
                            with_run(known, ids.run, place.workspace_id, title_of(task), now),
                            hint,
                            ids.run,
                            place.workspace_id,
                            true,
                            harness,
                            ids.session,
                            now,
                        )
                    },
                },
            }
        },
    }
}

impl Store {
    /// Attaches a session to a run. It was heard from at the moment it began.
    fn insert_session(
        &mut self,
        session: SessionId,
        run: RunId,
        harness: HarnessKind,
        hint: &str,
        now: &str,
    )
        ensures
            final(self)@ == with_session(
                old(self)@,
                session,
                run,
                harness,
                Some(hint@),
                now@,
                Some(now@),
            ),
    {
        self.push_session(
            session,
            run,
            harness,
            Some(hint.to_owned()),
            now,
            Some(now.to_owned()),
        );
    }

    /// Attaches this harness session to the workspace's most recent open run, at
    /// a given time and with given identifiers.
    pub fn attach_to_open_run_at(
        &mut self,
        hint: &str,
        probe: &RepositoryProbe,
        harness: HarnessKind,
        ids: NewRun,
        now: &str,
    ) -> (r: Result<Option<SessionBinding>, StoreError>)
        ensures
            (outcome(r), final(self)@) == attach_step(
                old(self)@,
                hint@,
                probe@,
                harness,
                ids,
                now@,
            ),
    {
        if let Some(existing) = self.binding_for_external_session(hint) {
            return Ok(Some(existing));
        }
        let backup = self.dup();
        let resolved = match self.upsert_repository(probe, ids.workspace, ids.repository, now) {
            Ok(resolved) => resolved,
            Err(error) => {
                return Err(error);
            },
        };
        match self.latest_open_run(resolved.workspace_id) {
            None => {
                *self = backup;
                Ok(None)
            },
            Some(run) => {
                if self.has_session(ids.session) {
                    *self = backup;
                    return Err(taken_error("sessions.id"));
                }
                self.insert_session(ids.session, run, harness, hint, now);
                Ok(
                    Some(
                        SessionBinding {
                            run_id: run,
                            session_id: ids.session,
                            workspace_id: resolved.workspace_id,
                            opened_run: false,
                        },
                    ),
                )
            },
        }
    }

    /// Attaches this harness session to the workspace's most recent open run.
    ///
    /// Returns `None` when the workspace has no open run: announcing anything in
    /// a session where nothing is in flight would spend context for no benefit.
    pub fn attach_to_open_run(
        &mut self,
        hint: &str,
        probe: &RepositoryProbe,
        harness: HarnessKind,
    ) -> (r: Result<Option<SessionBinding>, StoreError>)
        ensures
            exists|ids: NewRun, now: Seq<char>|
                ids.drawn() && clock_text(now) && (outcome(r), final(self)@)
                    == #[trigger] attach_step(
                    old(self)@,
                    hint@,
                    probe@,
                    harness,
                    ids,
                    now,
                ),
    {
        let ids = NewRun::new();
        let now = Moment::now().text();
        self.attach_to_open_run_at(hint, probe, harness, ids, now.as_str())
    }

    /// Attaches this harness session to a run, opening one titled `task` when the
    /// workspace has none in flight, at a given time and with given identifiers.
    pub fn bind_session_at(
        &mut self,
        hint: &str,
        probe: &RepositoryProbe,
        task: &str,
        harness: HarnessKind,
        ids: NewRun,
        now: &str,
    ) -> (r: Result<SessionBinding, StoreError>)
        ensures
            (outcome(r), final(self)@) == bind_session_step(
                old(self)@,
                hint@,
                probe@,
                task@,
                harness,
                ids,
                now@,
            ),
    {
        if let Some(existing) = self.binding_for_external_session(hint) {
            return Ok(existing);
        }
        let backup = self.dup();
        let resolved = match self.upsert_repository(probe, ids.workspace, ids.repository, now) {
            Ok(resolved) => resolved,
            Err(error) => {
                return Err(error);
            },
        };
        let (run, opened_run): (RunId, bool) = match self.latest_open_run(resolved.workspace_id) {
            Some(run) => (run, false),
            None => {
                if self.has_run(ids.run) {
                    *self = backup;
                    return Err(taken_error("runs.id"));
                }
                let title = truncate_task(task);
                self.push_run(ids.run, resolved.workspace_id, title.as_str(), now);
                (ids.run, true)
            },
        };
        if self.has_session(ids.session) {
            *self = backup;
            return Err(taken_error("sessions.id"));
        }
        self.insert_session(ids.session, run, harness, hint, now);
        Ok(
            SessionBinding {
                run_id: run,
                session_id: ids.session,
                workspace_id: resolved.workspace_id,
                opened_run,
            },
        )
    }

    /// Attaches this harness session to a run, opening one titled `task` when the
    /// workspace has none in flight. A task is recorded because the user asked
    /// for work, not because the model chose to announce it.
    pub fn bind_session(
        &mut self,
        hint: &str,
        probe: &RepositoryProbe,
        task: &str,
        harness: HarnessKind,
    ) -> (r: Result<SessionBinding, StoreError>)
        ensures
            exists|ids: NewRun, now: Seq<char>|
                ids.drawn() && clock_text(now) && (outcome(r), final(self)@)
                    == #[trigger] bind_session_step(
                    old(self)@,
                    hint@,
                    probe@,
                    task@,
                    harness,
                    ids,
                    now,
                ),
    {
        let ids = NewRun::new();
        let now = Moment::now().text();
        self.bind_session_at(hint, probe, task, harness, ids, now.as_str())
    }
}

// --- adopting a run --------------------------------------------------------

/// The most recently touched open run of the workspace a directory belongs to,
/// and the store after the directory was registered.
pub open spec fn path_run_step(
    s: StoreModel,
    probe: RepositoryProbeModel,
    ids: NewRun,
    now: Seq<char>,
) -> (Result<Option<RunSnapshotModel>, StoreErrorModel>, StoreModel) {
    let (resolved, known) = resolve_step(s, probe, ids.workspace, ids.repository, now);
    (
        match resolved {
            Err(error) => Err(error),
            Ok(place) => match run_in_flight(known, place.workspace_id) {
                None => Ok(None),
                Some(run) => match run_snapshot(known, run, None) {
                    Ok(snapshot) => Ok(Some(snapshot)),
                    Err(error) => Err(error),
                },
            },
        },
        known,
    )
}

/// The command that joins a run instead of opening one.
pub open spec fn joining(command: StartRunCommandModel, run: RunId) -> StartRunCommandModel {
    StartRunCommandModel { resume_run_id: Some(run), ..command }
}

/// A run under a better name.
pub open spec fn renamed(task: Seq<char>, now: Seq<char>) -> spec_fn(
    RunRecordModel,
) -> RunRecordModel {
    |r: RunRecordModel| RunRecordModel { task, updated_at: now, ..r }
}

/// What the domain has against a command, as it stands and as one that joins a
/// run.
pub struct Refusals {
    pub opening: Option<DomainError>,
    pub joining: Option<DomainError>,
}

/// Joining the run in flight, and naming it after the task the command states.
pub open spec fn join_step(
    s: StoreModel,
    command: StartRunCommandModel,
    refusal: Option<DomainErrorModel>,
    harness: HarnessKind,
    run: RunId,
    ids: NewRun,
    now: Seq<char>,
) -> (Result<StartRunResultModel, StoreErrorModel>, StoreModel) {
    let (started, after) = start_step(
        s,
        joining(command, run),
        refusal,
        harness,
        None,
        ids,
        now,
    );
    match started {
        Err(error) => (Err(error), after),
        Ok(result) => {
            let refined = trimmed(command.task);
            if refined.len() > 0 && refined != result.task {
                (
                    Ok(StartRunResultModel { task: refined, ..result }),
                    StoreModel {
                        runs: changed(after.runs, is_run(run), renamed(refined, now)),
                        ..after
                    },
                )
            } else {
                (Ok(result), after)
            }
        },
    }
}

/// Opening a run, or joining the one already in flight for its workspace. An
/// explicit run to resume always wins, since that names a specific run.
pub open spec fn adopt_step(
    s: StoreModel,
    command: StartRunCommandModel,
    opening: Option<DomainErrorModel>,
    joining_refusal: Option<DomainErrorModel>,
    harness: HarnessKind,
    probe: Option<RepositoryProbeModel>,
    looking: NewRun,
    ids: NewRun,
    now: Seq<char>,
) -> (Result<StartRunResultModel, StoreErrorModel>, StoreModel) {
    if command.resume_run_id is Some || command.workspace_roots.len() == 0 || probe is None {
        start_step(s, command, opening, harness, probe, ids, now)
    } else {
        let (found, known) = path_run_step(s, probe->0, looking, now);
        match found {
            Err(error) => (Err(error), known),
            Ok(None) => start_step(known, command, opening, harness, probe, ids, now),
            Ok(Some(existing)) => join_step(
                known,
                command,
                joining_refusal,
                harness,
                existing.run_id,
                ids,
                now,
            ),
        }
    }
}

impl Store {
    /// The most recently touched open run for whatever workspace the directory
    /// belongs to, at a given time and with given identifiers. The repository is
    /// registered on first sight, so that asking about an unknown directory
    /// answers "nothing in flight" rather than failing.
    pub fn latest_open_run_for_path_at(
        &mut self,
        probe: &RepositoryProbe,
        ids: NewRun,
        now: &str,
    ) -> (r: Result<Option<RunSnapshot>, StoreError>)
        ensures
            (outcome(r), final(self)@) == path_run_step(old(self)@, probe@, ids, now@),
    {
        let resolved = match self.upsert_repository(probe, ids.workspace, ids.repository, now) {
            Ok(resolved) => resolved,
            Err(error) => {
                return Err(error);
            },
        };
        match self.latest_open_run(resolved.workspace_id) {
            None => Ok(None),
            Some(run) => match self.get_run(run) {
                Ok(snapshot) => Ok(Some(snapshot)),
                Err(error) => Err(error),
            },
        }
    }

    /// The most recently touched open run for whatever workspace the directory
    /// belongs to.
    pub fn latest_open_run_for_path(&mut self, probe: &RepositoryProbe) -> (r: Result<
        Option<RunSnapshot>,
        StoreError,
    >)
        ensures
            exists|ids: NewRun, now: Seq<char>|
                ids.drawn() && clock_text(now) && (outcome(r), final(self)@)
                    == #[trigger] path_run_step(
                    old(self)@,
                    probe@,
                    ids,
                    now,
                ),
    {
        let ids = NewRun::new();
        let now = Moment::now().text();
        self.latest_open_run_for_path_at(probe, ids, now.as_str())
    }

    fn rename_rows(&mut self, run: RunId, task: &str, now: &str)
        ensures
            final(self)@ == (StoreModel {
                runs: changed(old(self)@.runs, is_run(run), renamed(task@, now@)),
                ..old(self)@
            }),
    {
        let ghost before = self@;
        let ghost after = changed(before.runs, is_run(run), renamed(task@, now@));
        let mut i: usize = 0;
        while i < self.runs.len()
            invariant
                i <= self.runs@.len(),
                self.runs@.len() == before.runs.len(),
                after == changed(before.runs, is_run(run), renamed(task@, now@)),
                self@ == (StoreModel { runs: self@.runs, ..before }),
                self@.runs =~= after.take(i as int) + before.runs.skip(i as int),
            decreases self.runs@.len() - i,
        {
            let ghost rows = self@.runs;
            assert(rows[i as int] == before.runs[i as int]);
            if self.runs[i].id == run {
                self.runs[i].task = task.to_owned();
                self.runs[i].updated_at = now.to_owned();
            }
            assert(self@.runs[i as int] == after[i as int]);
            assert(self@.runs =~= rows.update(i as int, after[i as int]));
            i += 1;
        }
        assert(self@.runs =~= after);
    }

    fn join_run(
        &mut self,
        command: &StartRunCommand,
        refusal: &Option<DomainError>,
        harness: HarnessKind,
        run: RunId,
        ids: NewRun,
        now: &str,
    ) -> (r: Result<StartRunResult, StoreError>)
        ensures
            (outcome(r), final(self)@) == join_step(
                old(self)@,
                command@,
                refusal.deep_view(),
                harness,
                run,
                ids,
                now@,
            ),
    {
        let mut resumed = command.dup();
        resumed.resume_run_id = Some(run);
        let probe: Option<RepositoryProbe> = None;
        match self.start_run_at(&resumed, refusal, harness, &probe, ids, now) {
            Err(error) => Err(error),
            Ok(result) => {
                let refined = trim(command.task.as_str());
                if !refined.as_str().is_empty() && !same(refined.as_str(), result.task.as_str()) {
                    self.rename_rows(run, refined.as_str(), now);
                    let mut better = result;
                    better.task = refined;
                    return Ok(better);
                }
                Ok(result)
            },
        }
    }

    /// Opens a run, or joins the one already in flight for this workspace, at a
    /// given time and with given identifiers: `looking` for a repository that is
    /// met for the first time while looking for a run, `ids` for what is opened.
    pub fn adopt_or_start_run_at(
        &mut self,
        command: &StartRunCommand,
        refusals: &Refusals,
        harness: HarnessKind,
        probe: &Option<RepositoryProbe>,
        looking: NewRun,
        ids: NewRun,
        now: &str,
    ) -> (r: Result<StartRunResult, StoreError>)
        ensures
            (outcome(r), final(self)@) == adopt_step(
                old(self)@,
                command@,
                refusals.opening.deep_view(),
                refusals.joining.deep_view(),
                harness,
                probe.deep_view(),
                looking,
                ids,
                now@,
            ),
    {
        assert(command.workspace_roots.deep_view().len() == command.workspace_roots@.len());
        if command.resume_run_id.is_some() || command.workspace_roots.len() == 0 {
            return self.start_run_at(command, &refusals.opening, harness, probe, ids, now);
        }
        match probe {
            None => self.start_run_at(command, &refusals.opening, harness, probe, ids, now),
            Some(found) => match self.latest_open_run_for_path_at(found, looking, now) {
                Err(error) => Err(error),
                Ok(None) => self.start_run_at(
                    command,
                    &refusals.opening,
                    harness,
                    probe,
                    ids,
                    now,
                ),
                Ok(Some(existing)) => self.join_run(
                    command,
                    &refusals.joining,
                    harness,
                    existing.run_id,
                    ids,
                    now,
                ),
            },
        }
    }

    /// Opens a run, or joins the one already in flight for this workspace.
    ///
    /// The hook layer opens a run on the first prompt, so there is usually one
    /// already; a second would split one task across two runs. A hook titles a
    /// run from the first raw prompt, so a task that is then stated replaces the
    /// derived name.
    pub fn adopt_or_start_run(
        &mut self,
        command: &StartRunCommand,
        refusals: &Refusals,
        harness: HarnessKind,
        probe: &Option<RepositoryProbe>,
    ) -> (r: Result<StartRunResult, StoreError>)
        ensures
            exists|looking: NewRun, ids: NewRun, now: Seq<char>|
                looking.drawn() && ids.drawn() && clock_text(now) && (outcome(r), final(self)@)
                    == #[trigger] adopt_step(
                    old(self)@,
                    command@,
                    refusals.opening.deep_view(),
                    refusals.joining.deep_view(),
                    harness,
                    probe.deep_view(),
                    looking,
                    ids,
                    now,
                ),
    {
        let looking = NewRun::new();
        let ids = NewRun::new();
        let now = Moment::now().text();
        self.adopt_or_start_run_at(
            command,
            refusals,
            harness,
            probe,
            looking,
            ids,
            now.as_str(),
        )
    }
}

// --- hearing from a session ------------------------------------------------

/// Being a session with that identifier of the harness, and not ended.
pub open spec fn is_live_hint(hint: Seq<char>) -> spec_fn(SessionRowModel) -> bool {
    |row: SessionRowModel| row.external_session_hint == Some(hint) && row.ended_at is None
}

/// A session that was heard from.
pub open spec fn seen(now: Seq<char>) -> spec_fn(SessionRowModel) -> SessionRowModel {
    |row: SessionRowModel| SessionRowModel { last_seen_at: Some(now), ..row }
}

/// The store after a harness session ended. The run stays open: closing an
/// editor is not finishing a task.
pub open spec fn with_session_closed(s: StoreModel, hint: Seq<char>, now: Seq<char>) -> StoreModel {
    StoreModel { sessions: changed(s.sessions, is_live_hint(hint), ended(now)), ..s }
}

/// The store after a harness session was heard from.
pub open spec fn with_session_seen(s: StoreModel, hint: Seq<char>, now: Seq<char>) -> StoreModel {
    match session_behind(s, hint) {
        None => s,
        Some(id) => StoreModel { sessions: changed(s.sessions, is_session(id), seen(now)), ..s },
    }
}

/// The open sessions of a run.
pub open spec fn open_sessions_of(sessions: Seq<SessionRowModel>, run: RunId) -> Seq<bool> {
    Seq::new(sessions.len(), |i: int| sessions[i].run_id == run && sessions[i].ended_at is None)
}

/// The open session of a run heard from most recently.
pub open spec fn speaking_session(s: StoreModel, run: RunId) -> Option<SessionId> {
    let order = arranged(
        seen_keys(s.sessions),
        open_sessions_of(s.sessions, run),
        newest_first(),
    );
    if order.len() > 0 {
        Some(s.sessions[order[0]].id)
    } else {
        None
    }
}

impl Store {
    /// Ends the harness session at a given time.
    pub fn close_external_session_at(&mut self, hint: &str, now: &str)
        ensures
            final(self)@ == with_session_closed(old(self)@, hint@, now@),
    {
        let ghost before = self@;
        let ghost after = changed(before.sessions, is_live_hint(hint@), ended(now@));
        let mut i: usize = 0;
        while i < self.sessions.len()
            invariant
                i <= self.sessions@.len(),
                self.sessions@.len() == before.sessions.len(),
                after == changed(before.sessions, is_live_hint(hint@), ended(now@)),
                self@ == (StoreModel { sessions: self@.sessions, ..before }),
                self@.sessions =~= after.take(i as int) + before.sessions.skip(i as int),
            decreases self.sessions@.len() - i,
        {
            let ghost rows = self@.sessions;
            assert(rows[i as int] == before.sessions[i as int]);
            if self.has_hint(i, hint) && self.sessions[i].ended_at.is_none() {
                self.sessions[i].ended_at = Some(now.to_owned());
            }
            assert(self@.sessions[i as int] == after[i as int]);
            assert(self@.sessions =~= rows.update(i as int, after[i as int]));
            i += 1;
        }
        assert(self@.sessions =~= after);
    }

    /// Ends the harness session. The run stays open.
    pub fn close_external_session(&mut self, hint: &str)
        ensures
            exists|now: Seq<char>|
                clock_text(now)
                    && final(self)@ == #[trigger] with_session_closed(old(self)@, hint@, now),
    {
        let now = Moment::now().text();
        self.close_external_session_at(hint, now.as_str());
    }

    /// Records that the harness session behind `hint` was heard from at a given
    /// time.
    pub fn touch_external_session_at(&mut self, hint: &str, now: &str)
        ensures
            final(self)@ == with_session_seen(old(self)@, hint@, now@),
    {
        let id = match self.session_of_hint(hint) {
            Some(id) => id,
            None => {
                return ;
            },
        };
        let ghost before = self@;
        let ghost after = changed(before.sessions, is_session(id), seen(now@));
        let mut i: usize = 0;
        while i < self.sessions.len()
            invariant
                i <= self.sessions@.len(),
                self.sessions@.len() == before.sessions.len(),
                after == changed(before.sessions, is_session(id), seen(now@)),
                self@ == (StoreModel { sessions: self@.sessions, ..before }),
                self@.sessions =~= after.take(i as int) + before.sessions.skip(i as int),
            decreases self.sessions@.len() - i,
        {
            let ghost rows = self@.sessions;
            assert(rows[i as int] == before.sessions[i as int]);
            if self.sessions[i].id == id {
                self.sessions[i].last_seen_at = Some(now.to_owned());
            }
            assert(self@.sessions[i as int] == after[i as int]);
            assert(self@.sessions =~= rows.update(i as int, after[i as int]));
            i += 1;
        }
        assert(self@.sessions =~= after);
    }

    /// Records that the harness session behind `hint` was just heard from. A hint
    /// with no session yet updates nothing and is not an error.
    pub fn touch_external_session(&mut self, hint: &str)
        ensures
            exists|now: Seq<char>|
                clock_text(now)
                    && final(self)@ == #[trigger] with_session_seen(old(self)@, hint@, now),
    {
        let now = Moment::now().text();
        self.touch_external_session_at(hint, now.as_str());
    }

    /// The session on `run` heard from most recently and not yet ended.
    ///
    /// Ordered by when a session was last heard from, not by when it started: a
    /// session whose process died keeps the stamp it had, so any session still
    /// working overtakes it however much earlier it began.
    pub fn latest_open_session(&self, run: RunId) -> (r: Option<SessionId>)
        ensures
            r == speaking_session(self@, run),
    {
        let ghost all = open_sessions_of(self@.sessions, run);
        let mut selected: Vec<bool> = Vec::new();
        let mut i: usize = 0;
        while i < self.sessions.len()
            invariant
                i <= self.sessions@.len(),
                all == open_sessions_of(self@.sessions, run),
                selected@ =~= all.take(i as int),
            decreases self.sessions@.len() - i,
        {
            selected.push(
                self.sessions[i].run_id == run && self.sessions[i].ended_at.is_none(),
            );
            i += 1;
        }
        assert(all.take(i as int) =~= all);
        let keys = self.session_keys();
        let order = arrange(
            &keys,
            &selected,
            Arrangement { text_descending: true, newest_row_first: true },
        );
        if order.len() > 0 {
            assert(row_numbers(order@)[0] == order@[0] as int);
            Some(self.sessions[order[0]].id)
        } else {
            None
        }
    }

    /// The run's current state plus its most recent checkpoint.
    pub fn snapshot(&self, run: RunId) -> (r: Result<RunSnapshot, StoreError>)
        ensures
            outcome(r) == run_snapshot(self@, run, None),
    {
        self.get_run(run)
    }
}

// --- subagents -------------------------------------------------------------

/// Being the agent `id`.
pub open spec fn is_agent(id: Seq<char>) -> spec_fn(AgentRowModel) -> bool {
    |row: AgentRowModel| row.id == id
}

/// Being the agent `id`, and not returned.
pub open spec fn is_absent_agent(id: Seq<char>) -> spec_fn(AgentRowModel) -> bool {
    |row: AgentRowModel| row.id == id && row.ended_at is None
}

/// An agent that returned.
pub open spec fn returned(now: Seq<char>) -> spec_fn(AgentRowModel) -> AgentRowModel {
    |row: AgentRowModel| AgentRowModel { ended_at: Some(now), ..row }
}

/// The store after an event named a subagent. A blank identifier records
/// nothing, and neither does a harness session that is not known; an agent that
/// was seen before stays as it was.
pub open spec fn with_agent(
    s: StoreModel,
    hint: Seq<char>,
    agent: Seq<char>,
    agent_type: Option<Seq<char>>,
    now: Seq<char>,
) -> StoreModel {
    if trimmed(agent).len() == 0 || any_row(s.agents, is_agent(agent)) {
        s
    } else {
        match session_behind(s, hint) {
            None => s,
            Some(session) => StoreModel {
                agents: s.agents.push(
                    AgentRowModel {
                        id: agent,
                        session_id: session,
                        agent_type,
                        started_at: now,
                        ended_at: None,
                    },
                ),
                ..s
            },
        }
    }
}

/// The store after a subagent returned. Only the first return counts.
pub open spec fn with_agent_returned(
    s: StoreModel,
    agent: Seq<char>,
    now: Seq<char>,
) -> StoreModel {
    if trimmed(agent).len() == 0 {
        s
    } else {
        StoreModel { agents: changed(s.agents, is_absent_agent(agent), returned(now)), ..s }
    }
}

impl Store {
    fn agent_known(&self, agent: &str) -> (r: bool)
        ensures
            r == any_row(self@.agents, is_agent(agent@)),
    {
        let mut i: usize = 0;
        while i < self.agents.len()
            invariant
                i <= self.agents@.len(),
                forall|j: int| 0 <= j < i ==> !is_agent(agent@)(#[trigger] self@.agents[j]),
            decreases self.agents@.len() - i,
        {
            if same(self.agents[i].id.as_str(), agent) {
                assert(is_agent(agent@)(self@.agents[i as int]));
                return true;
            }
            i += 1;
        }
        false
    }

    /// Records a subagent the first time an event names it, at a given time.
    pub fn record_agent_at(
        &mut self,
        hint: &str,
        agent: &str,
        agent_type: &Option<String>,
        now: &str,
    )
        ensures
            final(self)@ == with_agent(old(self)@, hint@, agent@, agent_type.deep_view(), now@),
    {
        if trim(agent).as_str().is_empty() || self.agent_known(agent) {
            return ;
        }
        let session = match self.session_of_hint(hint) {
            Some(id) => id,
            None => {
                return ;
            },
        };
        let ghost before = self@;
        let row = AgentRow {
            id: agent.to_owned(),
            session_id: session,
            agent_type: copy_option(agent_type),
            started_at: now.to_owned(),
            ended_at: None,
        };
        let ghost added = row@;
        self.agents.push(row);
        assert(self@.agents =~= before.agents.push(added));
        assert(self@ =~= (StoreModel { agents: before.agents.push(added), ..before }));
    }

    /// Records a subagent the first time an event names it. Nothing announces a
    /// subagent's dispatch, so the row is created by whatever it does first.
    pub fn record_agent(&mut self, hint: &str, agent: &str, agent_type: &Option<String>)
        ensures
            exists|now: Seq<char>|
                clock_text(now) && final(self)@ == #[trigger] with_agent(
                    old(self)@,
                    hint@,
                    agent@,
                    agent_type.deep_view(),
                    now,
                ),
    {
        let now = Moment::now().text();
        self.record_agent_at(hint, agent, agent_type, now.as_str());
    }

    /// Marks at a given time that a subagent returned.
    pub fn mark_agent_returned_at(&mut self, agent: &str, now: &str)
        ensures
            final(self)@ == with_agent_returned(old(self)@, agent@, now@),
    {
        if trim(agent).as_str().is_empty() {
            return ;
        }
        let ghost before = self@;
        let ghost after = changed(before.agents, is_absent_agent(agent@), returned(now@));
        let mut i: usize = 0;
        while i < self.agents.len()
            invariant
                i <= self.agents@.len(),
                self.agents@.len() == before.agents.len(),
                after == changed(before.agents, is_absent_agent(agent@), returned(now@)),
                self@ == (StoreModel { agents: self@.agents, ..before }),
                self@.agents =~= after.take(i as int) + before.agents.skip(i as int),
            decreases self.agents@.len() - i,
        {
            let ghost rows = self@.agents;
            assert(rows[i as int] == before.agents[i as int]);
            if same(self.agents[i].id.as_str(), agent) && self.agents[i].ended_at.is_none() {
                self.agents[i].ended_at = Some(now.to_owned());
            }
            assert(self@.agents[i as int] == after[i as int]);
            assert(self@.agents =~= rows.update(i as int, after[i as int]));
            i += 1;
        }
        assert(self@.agents =~= after);
    }

    /// Marks that a subagent returned.
    pub fn mark_agent_returned(&mut self, agent: &str)
        ensures
            exists|now: Seq<char>|
                clock_text(now)
                    && final(self)@ == #[trigger] with_agent_returned(old(self)@, agent@, now),
    {
        let now = Moment::now().text();
        self.mark_agent_returned_at(agent, now.as_str());
    }
}

// --- observed checkpoints --------------------------------------------------

/// A checkpoint written from observation: what was changed is what was seen, and
/// the reasoning is that of the checkpoint before it. A decision does not become
/// false because time passed.
pub open spec fn inheriting(
    binding: SessionBinding,
    operation: OperationId,
    stage: WorkflowStage,
    previous: Option<CheckpointSnapshotModel>,
    changed_files: Seq<Seq<char>>,
    fallback: Seq<char>,
) -> CheckpointCommandModel {
    match previous {
        None => CheckpointCommandModel {
            operation_id: operation,
            run_id: binding.run_id,
            session_id: binding.session_id,
            stage,
            origin: CheckpointOrigin::Deterministic,
            completed_steps: Seq::empty(),
            next_steps: Seq::empty(),
            decisions: Seq::empty(),
            rejected: Seq::empty(),
            changed_files,
            verification: Seq::empty(),
            risks: Seq::empty(),
            handoff_summary: fallback,
            task_done: None,
            binding: None,
        },
        Some(checkpoint) => CheckpointCommandModel {
            operation_id: operation,
            run_id: binding.run_id,
            session_id: binding.session_id,
            stage,
            origin: checkpoint.origin,
            completed_steps: checkpoint.completed_steps,
            next_steps: checkpoint.next_steps,
            decisions: checkpoint.decisions,
            rejected: checkpoint.rejected,
            changed_files,
            verification: checkpoint.verification,
            risks: checkpoint.risks,
            handoff_summary: checkpoint.handoff_summary,
            task_done: None,
            binding: None,
        },
    }
}

/// The checkpoint an observation comes to. `completed` is not a stage a
/// checkpoint may claim; it is reached only by finishing the run.
pub open spec fn observed(
    s: StoreModel,
    binding: SessionBinding,
    operation: OperationId,
    changed_files: Seq<Seq<char>>,
    fallback: Seq<char>,
) -> Result<CheckpointCommandModel, StoreErrorModel> {
    match run_snapshot(s, binding.run_id, Some(binding.session_id)) {
        Err(error) => Err(error),
        Ok(run) => Ok(
            inheriting(
                binding,
                operation,
                if run.stage == WorkflowStage::Completed {
                    WorkflowStage::Reviewing
                } else {
                    run.stage
                },
                run.latest_checkpoint,
                changed_files,
                fallback,
            ),
        ),
    }
}

/// Writing a checkpoint from observation.
pub open spec fn observe_step(
    s: StoreModel,
    binding: SessionBinding,
    operation: OperationId,
    changed_files: Seq<Seq<char>>,
    fallback: Seq<char>,
    refusal: Option<DomainErrorModel>,
    checkpoint: CheckpointId,
    now: Seq<char>,
    until: Seq<char>,
) -> (Result<(), StoreErrorModel>, StoreModel) {
    match observed(s, binding, operation, changed_files, fallback) {
        Err(error) => (Err(error), s),
        Ok(command) => {
            let (saved, after) = checkpoint_step(s, command, refusal, checkpoint, now, until);
            (
                match saved {
                    Ok(_) => Ok(()),
                    Err(error) => Err(error),
                },
                after,
            )
        },
    }
}

impl Store {
    /// The checkpoint an observation comes to.
    pub fn observed_checkpoint(
        &self,
        binding: SessionBinding,
        operation: OperationId,
        changed_files: Vec<String>,
        fallback_summary: &str,
    ) -> (r: Result<CheckpointCommand, StoreError>)
        ensures
            outcome(r) == observed(
                self@,
                binding,
                operation,
                changed_files.deep_view(),
                fallback_summary@,
            ),
    {
        let run = match self.snapshot_for_session(binding.run_id, Some(binding.session_id)) {
            Ok(run) => run,
            Err(error) => {
                return Err(error);
            },
        };
        let stage = if run.stage == WorkflowStage::Completed {
            WorkflowStage::Reviewing
        } else {
            run.stage
        };
        match run.latest_checkpoint {
            None => {
                let r = CheckpointCommand {
                    operation_id: operation,
                    run_id: binding.run_id,
                    session_id: binding.session_id,
                    stage,
                    origin: CheckpointOrigin::Deterministic,
                    completed_steps: Vec::new(),
                    next_steps: Vec::new(),
                    decisions: Vec::new(),
                    rejected: Vec::new(),
                    changed_files,
                    verification: Vec::new(),
                    risks: Vec::new(),
                    handoff_summary: fallback_summary.to_owned(),
                    task_done: None,
                    binding: None,
                };
                assert(r@ =~= inheriting(
                    binding,
                    operation,
                    stage,
                    None,
                    changed_files.deep_view(),
                    fallback_summary@,
                ));
                Ok(r)
            },
            Some(checkpoint) => Ok(
                CheckpointCommand {
                    operation_id: operation,
                    run_id: binding.run_id,
                    session_id: binding.session_id,
                    stage,
                    origin: checkpoint.origin,
                    completed_steps: checkpoint.completed_steps,
                    next_steps: checkpoint.next_steps,
                    decisions: checkpoint.decisions,
                    rejected: checkpoint.rejected,
                    changed_files,
                    verification: checkpoint.verification,
                    risks: checkpoint.risks,
                    handoff_summary: checkpoint.handoff_summary,
                    task_done: None,
                    binding: None,
                },
            ),
        }
    }

    /// Writes a checkpoint from observation, at a given time and under given
    /// identifiers. `refusal` is what the domain has against the checkpoint that
    /// [`Store::observed_checkpoint`] gives.
    pub fn record_observed_checkpoint_at(
        &mut self,
        binding: SessionBinding,
        operation: OperationId,
        changed_files: Vec<String>,
        fallback_summary: &str,
        refusal: &Option<DomainError>,
        checkpoint: CheckpointId,
        now: Moment,
    ) -> (r: Result<(), StoreError>)
        requires
            now.regular(),
            now.reaches(task_lease()),
        ensures
            (outcome(r), final(self)@) == observe_step(
                old(self)@,
                binding,
                operation,
                changed_files.deep_view(),
                fallback_summary@,
                refusal.deep_view(),
                checkpoint,
                now.written(),
                now.plus(task_lease()).written(),
            ),
    {
        match self.observed_checkpoint(binding, operation, changed_files, fallback_summary) {
            Err(error) => Err(error),
            Ok(command) => match self.save_checkpoint_at(&command, refusal, checkpoint, now) {
                Ok(_) => Ok(()),
                Err(error) => Err(error),
            },
        }
    }

    /// Writes a checkpoint from observation, carrying forward prior reasoning:
    /// this session's own, since a neighbour's decisions are not its to inherit.
    pub fn record_observed_checkpoint(
        &mut self,
        binding: SessionBinding,
        changed_files: Vec<String>,
        fallback_summary: &str,
        refusal: &Option<DomainError>,
    ) -> (r: Result<(), StoreError>)
        ensures
            exists|operation: OperationId, checkpoint: CheckpointId, now: Moment|
                {
                    let recorded = #[trigger] observe_step(
                        old(self)@,
                        binding,
                        operation,
                        changed_files.deep_view(),
                        fallback_summary@,
                        refusal.deep_view(),
                        checkpoint,
                        now.written(),
                        now.plus(task_lease()).written(),
                    );
                    &&& marked_random(operation.0)
                    &&& marked_random(checkpoint.0)
                    &&& on_the_clock(now)
                    &&& (outcome(r), final(self)@) == if now.reaches(task_lease()) {
                        recorded
                    } else {
                        (Err(clock_out_of_range()), old(self)@)
                    }
                },
    {
        let operation = OperationId::new();
        let checkpoint = CheckpointId::new();
        let now = Moment::now();
        let ghost recorded = observe_step(
            self@,
            binding,
            operation,
            changed_files.deep_view(),
            fallback_summary@,
            refusal.deep_view(),
            checkpoint,
            now.written(),
            now.plus(task_lease()).written(),
        );
        if !now.can_reach(task_lease_span()) {
            return Err(StoreError::Database("the clock is out of range".to_owned()));
        }
        self.record_observed_checkpoint_at(
            binding,
            operation,
            changed_files,
            fallback_summary,
            refusal,
            checkpoint,
            now,
        )
    }
}

// --- asking for reasoning --------------------------------------------------

/// Being an edit of a run.
pub open spec fn edit_in(run: RunId) -> spec_fn(LedgerRowModel) -> bool {
    |row: LedgerRowModel| row.run_id == run
}

/// Being a checkpoint of a run that carries reasoning.
pub open spec fn reasoned(run: RunId) -> spec_fn(CheckpointRowModel) -> bool {
    |row: CheckpointRowModel| row.run_id == run && row.origin == CheckpointOrigin::Enriched
}

/// The number of edits a run has made without a word on why, once that is large
/// enough to be worth asking about.
pub open spec fn unexplained(s: StoreModel, run: RunId) -> Option<nat> {
    let edits = tally(s.ledger, edit_in(run));
    if any_row(s.checkpoints, reasoned(run)) || edits < REASONING_EDIT_THRESHOLD {
        None
    } else {
        Some(edits)
    }
}

/// Being a notice of a kind that a session was given.
pub open spec fn is_notice(session: Seq<char>, kind: Seq<char>) -> spec_fn(NoticeRowModel) -> bool {
    |row: NoticeRowModel| row.session == session && row.kind == kind
}

/// Taking the right to give a session a notice of a kind, once.
pub open spec fn notice_step(
    s: StoreModel,
    session: Seq<char>,
    kind: Seq<char>,
    now: Seq<char>,
) -> (bool, StoreModel) {
    if any_row(s.notices, is_notice(session, kind)) {
        (false, s)
    } else {
        (
            true,
            StoreModel {
                notices: s.notices.push(NoticeRowModel { session, kind, sent_at: now }),
                ..s
            },
        )
    }
}

impl Store {
    fn count_edits(&self, run: RunId) -> (r: usize)
        ensures
            r == tally(self@.ledger, edit_in(run)),
    {
        let ghost p = edit_in(run);
        let mut count: usize = 0;
        let mut i: usize = 0;
        while i < self.ledger.len()
            invariant
                i <= self.ledger@.len(),
                p == edit_in(run),
                count <= i,
                count == tally(self@.ledger.take(i as int), p),
            decreases self.ledger@.len() - i,
        {
            proof {
                lemma_tally_step(self@.ledger, p, i as int);
            }
            if self.ledger[i].run_id == run {
                count += 1;
            }
            i += 1;
        }
        assert(self@.ledger.take(i as int) =~= self@.ledger);
        count
    }

    fn has_reasoning(&self, run: RunId) -> (r: bool)
        ensures
            r == any_row(self@.checkpoints, reasoned(run)),
    {
        let mut i: usize = 0;
        while i < self.checkpoints.len()
            invariant
                i <= self.checkpoints@.len(),
                forall|j: int| 0 <= j < i ==> !reasoned(run)(#[trigger] self@.checkpoints[j]),
            decreases self.checkpoints@.len() - i,
        {
            if self.checkpoints[i].run_id == run && self.checkpoints[i].origin
                == CheckpointOrigin::Enriched {
                assert(reasoned(run)(self@.checkpoints[i as int]));
                return true;
            }
            i += 1;
        }
        false
    }

    /// The number of edits a run has made without the model ever saying why, once
    /// that number is large enough to be worth asking about.
    ///
    /// `None` covers both ways there is nothing to say: too few edits, or
    /// reasoning already recorded. A deterministic checkpoint does not count.
    pub fn unrecorded_reasoning(&self, run: RunId) -> (r: Option<usize>)
        ensures
            match unexplained(self@, run) {
                Some(edits) => r matches Some(count) && count == edits,
                None => r is None,
            },
    {
        let edits: usize = self.count_edits(run);
        if self.has_reasoning(run) || edits < REASONING_EDIT_THRESHOLD {
            None
        } else {
            Some(edits)
        }
    }

    fn was_told(&self, session: &str, kind: &str) -> (r: bool)
        ensures
            r == any_row(self@.notices, is_notice(session@, kind@)),
    {
        let mut i: usize = 0;
        while i < self.notices.len()
            invariant
                i <= self.notices@.len(),
                forall|j: int|
                    0 <= j < i ==> !is_notice(session@, kind@)(#[trigger] self@.notices[j]),
            decreases self.notices@.len() - i,
        {
            if same(self.notices[i].session.as_str(), session) && same(
                self.notices[i].kind.as_str(),
                kind,
            ) {
                assert(is_notice(session@, kind@)(self@.notices[i as int]));
                return true;
            }
            i += 1;
        }
        false
    }

    /// Takes the right to tell `session` a notice of `kind`, at a given time.
    pub fn claim_notice_at(&mut self, session: &str, kind: &str, now: &str) -> (r: bool)
        ensures
            (r, final(self)@) == notice_step(old(self)@, session@, kind@, now@),
    {
        if self.was_told(session, kind) {
            return false;
        }
        let ghost before = self@;
        let row = NoticeRow {
            session: session.to_owned(),
            kind: kind.to_owned(),
            sent_at: now.to_owned(),
        };
        let ghost added = row@;
        self.notices.push(row);
        assert(self@.notices =~= before.notices.push(added));
        assert(self@ =~= (StoreModel { notices: before.notices.push(added), ..before }));
        true
    }

    /// Takes the right to tell `session` a notice of `kind`, once. True means
    /// this caller may speak and nobody else will; false means the session has
    /// already been told.
    pub fn claim_notice(&mut self, session: &str, kind: &str) -> (r: bool)
        ensures
            exists|now: Seq<char>|
                clock_text(now)
                    && (r, final(self)@)
                    == #[trigger] notice_step(old(self)@, session@, kind@, now),
    {
        let now = Moment::now().text();
        self.claim_notice_at(session, kind, now.as_str())
    }
}

} // verus!
