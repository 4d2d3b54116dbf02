//! Working through the tasks of a plan.
//!
//! A run names the change it executes by its slug, and says in free words what
//! it is working on. Naming a task takes a hold on it; a tick closes it, with
//! the proof that it was done.

use vstd::prelude::*;

use crate::domain::{
    SpecBinding, SpecBindingModel, TaskClosed, TaskClosedModel, TaskDone, TaskDoneModel,
};
use crate::error::{outcome, StoreError, StoreErrorModel};
use crate::ids::{ChangeId, RunId, SessionId, TaskId, WorkspaceId};
use crate::moment::Span;
use crate::order::{arrange, arranged, row_numbers, Arrangement, KeyModel, SortKey};
use crate::outside::{json_list_parsed, json_list_text, read_json_list, write_json_list};
use crate::rows::{any_row, changed, first_index, first_row, is_first, lemma_first, lemma_no_first};
use crate::states::{ChangeStatus, RunStatus, TaskStatus, WorkflowStage};
use crate::tables::{
    ChangeRowModel, LedgerRowModel, RunRecordModel, SessionRowModel, Store, StoreModel,
    TaskRowModel, TickRow, TickRowModel,
};
use crate::text::{
    characters, concat2, contains, copy_option, copy_text, ends_with, is_white, occurs_in, pieces,
    same, split_marked, strip_prefixes, trim, trim_back_char, trimmed, white, without_back,
    without_prefixes,
};

verus! {

// --- task numbers and declared paths ---------------------------------------

/// Marks where a leading task number ends: at whitespace or a colon.
pub open spec fn number_ends(s: Seq<char>) -> Seq<bool> {
    Seq::new(s.len(), |i: int| white(s[i]) || s[i] == ':')
}

/// The leading token of a description, without the dots that follow it.
pub open spec fn leading_token(s: Seq<char>) -> Seq<char> {
    without_back(pieces(trimmed(s), number_ends(trimmed(s)))[0], '.')
}

/// A character a task number is made of.
pub open spec fn digit_or_dot(c: char) -> bool {
    '0' <= c <= '9' || c == '.'
}

/// The task number a description names, when its leading token is made of
/// digits and dots alone.
pub open spec fn task_number(s: Seq<char>) -> Option<Seq<char>> {
    let head = leading_token(s);
    if head.len() > 0 && forall|i: int| 0 <= i < head.len() ==> digit_or_dot(#[trigger] head[i]) {
        Some(head)
    } else {
        None
    }
}

/// The task number a `current_task` names, if it names one.
///
/// The text is free. Whether a task of that number exists is the caller's
/// question, and work that is not a task at all is described here too.
pub fn task_number_in(current_task: &str) -> (r: Option<String>)
    ensures
        r.deep_view() == task_number(current_task@),
{
    let described = trim(current_task);
    let chars = characters(described.as_str());
    let mut marks: Vec<bool> = Vec::new();
    let mut i: usize = 0;
    while i < chars.len()
        invariant
            i <= chars@.len(),
            marks@.len() == i,
            forall|j: int| 0 <= j < i ==> marks@[j] == (white(chars@[j]) || chars@[j] == ':'),
        decreases chars@.len() - i,
    {
        marks.push(is_white(chars[i]) || chars[i] == ':');
        i += 1;
    }
    assert(marks@ =~= number_ends(described@));
    let parts = split_marked(&chars, &marks);
    assert(parts.deep_view()[0] == parts@[0]@);
    let head = trim_back_char(parts[0].as_str(), '.');
    let token = characters(head.as_str());
    if token.len() == 0 {
        return None;
    }
    let mut k: usize = 0;
    while k < token.len()
        invariant
            k <= token@.len(),
            token@ == head@,
            head@ == leading_token(current_task@),
            forall|j: int| 0 <= j < k ==> digit_or_dot(#[trigger] head@[j]),
        decreases token@.len() - k,
    {
        let c = token[k];
        if !(('0' <= c && c <= '9') || c == '.') {
            assert(!digit_or_dot(head@[k as int]));
            return None;
        }
        k += 1;
    }
    Some(head)
}

/// What a declared path is matched by: without whitespace around it, and
/// without any `./` at its front.
pub open spec fn declared_tail(declared: Seq<char>) -> Seq<char> {
    without_prefixes(trimmed(declared), "./"@)
}

/// A path a plan declared names the file an edit landed on: it is that path, or
/// the tail of it at a separator. An empty declaration names nothing.
pub open spec fn declares(declared: Seq<char>, edited: Seq<char>) -> bool {
    let tail = declared_tail(declared);
    tail.len() > 0 && (edited == tail || ("/"@ + tail).is_suffix_of(edited))
}

/// Whether a path a plan declared names the file an edit landed on.
///
/// A plan writes repository-relative paths; what is recorded is absolute, and a
/// worktree resolves elsewhere than the repository it belongs to. So the match
/// is made on the tail, at a separator boundary.
pub fn declares_path(declared: &str, edited: &str) -> (r: bool)
    ensures
        r == declares(declared@, edited@),
{
    let tail = strip_prefixes(trim(declared).as_str(), "./");
    if tail.as_str().is_empty() {
        return false;
    }
    same(edited, tail.as_str()) || ends_with(edited, concat2("/", tail.as_str()).as_str())
}

/// Some path of the list names the file.
pub open spec fn any_declares(declared: Seq<Seq<char>>, edited: Seq<char>) -> bool {
    exists|i: int| 0 <= i < declared.len() && declares(#[trigger] declared[i], edited)
}

/// Whether some path of the list names the file.
pub fn any_declares_path(declared: &Vec<String>, edited: &str) -> (r: bool)
    ensures
        r == any_declares(declared.deep_view(), edited@),
{
    let mut i: usize = 0;
    while i < declared.len()
        invariant
            i <= declared@.len(),
            forall|j: int| 0 <= j < i ==> !declares(#[trigger] declared.deep_view()[j], edited@),
        decreases declared@.len() - i,
    {
        if declares_path(declared[i].as_str(), edited) {
            assert(declares(declared.deep_view()[i as int], edited@));
            return true;
        }
        i += 1;
    }
    false
}

// --- reading a run ---------------------------------------------------------

/// What the store needs of a run before it writes to it.
pub struct RunView {
    pub workspace_id: WorkspaceId,
    pub task: String,
    pub status: RunStatus,
    pub stage: WorkflowStage,
    pub spec: Option<SpecBinding>,
}

/// The contents of a [`RunView`].
#[verifier::ext_equal]
pub struct RunViewModel {
    pub workspace_id: WorkspaceId,
    pub task: Seq<char>,
    pub status: RunStatus,
    pub stage: WorkflowStage,
    pub spec: Option<SpecBindingModel>,
}

impl View for RunView {
    type V = RunViewModel;

    open spec fn view(&self) -> RunViewModel {
        RunViewModel {
            workspace_id: self.workspace_id,
            task: self.task@,
            status: self.status,
            stage: self.stage,
            spec: self.spec.deep_view(),
        }
    }
}

impl DeepView for RunView {
    type V = RunViewModel;

    open spec fn deep_view(&self) -> RunViewModel {
        self@
    }
}

/// Being the run `id`.
pub open spec fn is_run(id: RunId) -> spec_fn(RunRecordModel) -> bool {
    |r: RunRecordModel| r.id == id
}

/// The binding of a run. One with nothing in it is no binding: an empty one
/// reads as a broken reference rather than as the absence of one.
pub open spec fn binding_of(r: RunRecordModel) -> Option<SpecBindingModel> {
    if r.spec_change_id is Some || r.current_task is Some {
        Some(SpecBindingModel { change_id: r.spec_change_id, current_task: r.current_task })
    } else {
        None
    }
}

/// A run as the store reads it.
pub open spec fn view_of_run(r: RunRecordModel) -> RunViewModel {
    RunViewModel {
        workspace_id: r.workspace_id,
        task: r.task,
        status: r.status,
        stage: r.stage,
        spec: binding_of(r),
    }
}

/// The run `id`, or the refusal that there is none.
pub open spec fn loaded_run(s: StoreModel, id: RunId) -> Result<RunViewModel, StoreErrorModel> {
    match first_row(s.runs, is_run(id)) {
        Some(r) => Ok(view_of_run(r)),
        None => Err(StoreErrorModel::RunNotFound(id)),
    }
}

impl Store {
    /// Where the run `id` stands in its table.
    pub fn run_index(&self, id: RunId) -> (r: Option<usize>)
        ensures
            match r {
                Some(i) => i < self.runs@.len() && first_index(self@.runs, is_run(id)) == Some(
                    i as int,
                ) && first_row(self@.runs, is_run(id)) == Some(self.runs@[i as int]@)
                    && self.runs@[i as int].id == id && any_row(self@.runs, is_run(id)),
                None => first_index(self@.runs, is_run(id)) is None && first_row(
                    self@.runs,
                    is_run(id),
                ) is None && !any_row(self@.runs, is_run(id)),
            },
    {
        let mut i: usize = 0;
        while i < self.runs.len()
            invariant
                i <= self.runs@.len(),
                forall|j: int| 0 <= j < i ==> !is_run(id)(#[trigger] self@.runs[j]),
            decreases self.runs@.len() - i,
        {
            if self.runs[i].id == id {
                proof {
                    assert(is_first(self@.runs, is_run(id), i as int));
                    lemma_first(self@.runs, is_run(id), i as int);
                }
                return Some(i);
            }
            i += 1;
        }
        proof {
            lemma_no_first(self@.runs, is_run(id));
        }
        None
    }

    /// The run `id`.
    pub fn load_run_row(&self, id: RunId) -> (r: Result<RunView, StoreError>)
        ensures
            outcome(r) == loaded_run(self@, id),
    {
        match self.run_index(id) {
            Some(i) => {
                let row = &self.runs[i];
                let spec = if row.spec_change_id.is_some() || row.current_task.is_some() {
                    Some(
                        SpecBinding {
                            change_id: copy_option(&row.spec_change_id),
                            current_task: copy_option(&row.current_task),
                        },
                    )
                } else {
                    None
                };
                Ok(
                    RunView {
                        workspace_id: row.workspace_id,
                        task: copy_text(&row.task),
                        status: row.status,
                        stage: row.stage,
                        spec,
                    },
                )
            },
            None => Err(StoreError::RunNotFound(id)),
        }
    }
}

// --- who holds a task ------------------------------------------------------

/// Sessions ordered by when they were last heard from. One never heard from
/// comes after every other.
pub open spec fn seen_keys(sessions: Seq<SessionRowModel>) -> Seq<KeyModel> {
    Seq::new(
        sessions.len(),
        |i: int|
            match sessions[i].last_seen_at {
                Some(at) => KeyModel { rank: 0, weight: 0, text: at },
                None => KeyModel { rank: 1, weight: 0, text: Seq::empty() },
            },
    )
}

/// The sessions of a run.
pub open spec fn sessions_of(sessions: Seq<SessionRowModel>, run: RunId) -> Seq<bool> {
    Seq::new(sessions.len(), |i: int| sessions[i].run_id == run)
}

/// Greatest text first; of equal ones the row written first.
pub open spec fn latest_first() -> Arrangement {
    Arrangement { text_descending: true, newest_row_first: false }
}

/// The session of a run that was heard from most recently.
pub open spec fn claimant(s: StoreModel, run: RunId) -> Option<SessionId> {
    let order = arranged(seen_keys(s.sessions), sessions_of(s.sessions, run), latest_first());
    if order.len() > 0 {
        Some(s.sessions[order[0]].id)
    } else {
        None
    }
}

impl Store {
    /// What the sessions are ordered by.
    pub fn session_keys(&self) -> (r: Vec<SortKey>)
        ensures
            r.deep_view() == seen_keys(self@.sessions),
            r@.len() == self.sessions@.len(),
    {
        let mut r: Vec<SortKey> = Vec::new();
        let mut i: usize = 0;
        while i < self.sessions.len()
            invariant
                i <= self.sessions@.len(),
                r.deep_view() =~= seen_keys(self@.sessions).take(i as int),
            decreases self.sessions@.len() - i,
        {
            let key = match &self.sessions[i].last_seen_at {
                Some(at) => SortKey { rank: 0, weight: 0, text: copy_text(at) },
                None => SortKey { rank: 1, weight: 0, text: String::new() },
            };
            assert(key@ == seen_keys(self@.sessions)[i as int]);
            let ghost listed = r.deep_view();
            let ghost next = key@;
            r.push(key);
            assert(r.deep_view() =~= listed.push(next));
            i += 1;
        }
        assert(seen_keys(self@.sessions).take(i as int) =~= seen_keys(self@.sessions));
        r
    }

    /// The session of a run that was heard from most recently.
    pub fn latest_session_of(&self, run: RunId) -> (r: Option<SessionId>)
        ensures
            r == claimant(self@, run),
    {
        let keys = self.session_keys();
        let mut selected: Vec<bool> = Vec::new();
        let mut i: usize = 0;
        while i < self.sessions.len()
            invariant
                i <= self.sessions@.len(),
                selected@.len() == i,
                forall|j: int| 0 <= j < i ==> selected@[j] == (self@.sessions[j].run_id == run),
            decreases self.sessions@.len() - i,
        {
            selected.push(self.sessions[i].run_id == run);
            i += 1;
        }
        assert(selected@ =~= sessions_of(self@.sessions, run));
        let order = arrange(
            &keys,
            &selected,
            Arrangement { text_descending: true, newest_row_first: false },
        );
        if order.len() > 0 {
            assert(row_numbers(order@)[0] == order@[0] as int);
            Some(self.sessions[order[0]].id)
        } else {
            None
        }
    }
}

/// How long a hold on a task lasts before it lapses: ten minutes.
///
/// Renewed by every checkpoint, so an agent that keeps reporting keeps its
/// task, and one that goes quiet for longer than this is indistinguishable from
/// one that stopped.
pub open spec fn task_lease() -> Span {
    Span { seconds: 600, nanos: 0 }
}

/// How long a hold on a task lasts before it lapses.
pub fn task_lease_span() -> (r: Span)
    ensures
        r == task_lease(),
{
    Span { seconds: 600, nanos: 0 }
}

// --- binding a run ---------------------------------------------------------

/// A run after a binding was written onto it: a field the binding does not name
/// is left as it is.
pub open spec fn bind_run(binding: SpecBindingModel, now: Seq<char>) -> spec_fn(
    RunRecordModel,
) -> RunRecordModel {
    |r: RunRecordModel|
        RunRecordModel {
            spec_change_id: if binding.change_id is Some {
                binding.change_id
            } else {
                r.spec_change_id
            },
            current_task: if binding.current_task is Some {
                binding.current_task
            } else {
                r.current_task
            },
            updated_at: now,
            ..r
        }
}

/// Being the change `id` under a slug.
pub open spec fn is_change_called(id: ChangeId, slug: Seq<char>) -> spec_fn(
    ChangeRowModel,
) -> bool {
    |c: ChangeRowModel| c.id == id && c.slug == slug
}

/// The slug the run is bound to.
pub open spec fn bound_slug(s: StoreModel, run: RunId) -> Option<Seq<char>> {
    match first_row(s.runs, is_run(run)) {
        Some(r) => r.spec_change_id,
        None => None,
    }
}

/// Being an open task with that number, of a change with that slug.
pub open spec fn claimable(
    changes: Seq<ChangeRowModel>,
    slug: Option<Seq<char>>,
    number: Seq<char>,
) -> spec_fn(TaskRowModel) -> bool {
    |t: TaskRowModel|
        {
            &&& t.number == number
            &&& t.status == TaskStatus::Pending || t.status == TaskStatus::Running
            &&& slug matches Some(name) && any_row(changes, is_change_called(t.change_id, name))
        }
}

/// A task after a session took hold of it.
pub open spec fn claimed(
    holder: Option<SessionId>,
    until: Seq<char>,
    now: Seq<char>,
) -> spec_fn(TaskRowModel) -> TaskRowModel {
    |t: TaskRowModel|
        TaskRowModel {
            claimed_by: holder,
            lease_until: Some(until),
            status: TaskStatus::Running,
            updated_at: now,
            ..t
        }
}

/// The store after a binding was written onto the run `run`.
///
/// A binding whose `current_task` names a task of the plan takes a hold on that
/// task for the session of the run heard from most recently. One that names no
/// task claims nothing, and is not refused for it.
pub open spec fn with_binding(
    s: StoreModel,
    run: RunId,
    binding: SpecBindingModel,
    now: Seq<char>,
    until: Seq<char>,
) -> StoreModel {
    let bound = StoreModel { runs: changed(s.runs, is_run(run), bind_run(binding, now)), ..s };
    match binding.current_task {
        Some(described) => match task_number(described) {
            Some(number) => StoreModel {
                tasks: changed(
                    bound.tasks,
                    claimable(bound.changes, bound_slug(bound, run), number),
                    claimed(claimant(bound, run), until, now),
                ),
                ..bound
            },
            None => bound,
        },
        None => bound,
    }
}

/// Writing a binding: refused where there is no such run.
pub open spec fn write_binding_step(
    s: StoreModel,
    run: RunId,
    binding: SpecBindingModel,
    now: Seq<char>,
    until: Seq<char>,
) -> Result<StoreModel, StoreErrorModel> {
    if any_row(s.runs, is_run(run)) {
        Ok(with_binding(s, run, binding, now, until))
    } else {
        Err(StoreErrorModel::RunNotFound(run))
    }
}

impl Store {
    /// Writes a binding onto the rows of a run.
    fn bind_rows(&mut self, run: RunId, binding: &SpecBinding, now: &str)
        ensures
            final(self)@ == (StoreModel {
                runs: changed(old(self)@.runs, is_run(run), bind_run(binding@, now@)),
                ..old(self)@
            }),
    {
        let ghost before = self@;
        let ghost after = changed(before.runs, is_run(run), bind_run(binding@, now@));
        let mut i: usize = 0;
        while i < self.runs.len()
            invariant
                i <= self.runs@.len(),
                self.runs@.len() == before.runs.len(),
                after == changed(before.runs, is_run(run), bind_run(binding@, now@)),
                self@ == (StoreModel { runs: self@.runs, ..before }),
                self@.runs =~= after.take(i as int) + before.runs.skip(i as int),
            decreases self.runs@.len() - i,
        {
            let ghost rows = self@.runs;
            assert(rows[i as int] == before.runs[i as int]);
            if self.runs[i].id == run {
                if binding.change_id.is_some() {
                    self.runs[i].spec_change_id = copy_option(&binding.change_id);
                }
                if binding.current_task.is_some() {
                    self.runs[i].current_task = copy_option(&binding.current_task);
                }
                self.runs[i].updated_at = now.to_owned();
            }
            assert(self@.runs[i as int] == after[i as int]);
            assert(self@.runs =~= rows.update(i as int, after[i as int]));
            i += 1;
        }
        assert(self@.runs =~= after);
    }
}

impl Store {
    /// Whether a change with that identifier has that slug.
    fn change_is_called(&self, id: ChangeId, slug: &str) -> (r: bool)
        ensures
            r == any_row(self@.changes, is_change_called(id, slug@)),
    {
        let mut i: usize = 0;
        while i < self.changes.len()
            invariant
                i <= self.changes@.len(),
                forall|j: int|
                    0 <= j < i ==> !is_change_called(id, slug@)(#[trigger] self@.changes[j]),
            decreases self.changes@.len() - i,
        {
            if self.changes[i].id == id && same(self.changes[i].slug.as_str(), slug) {
                assert(is_change_called(id, slug@)(self@.changes[i as int]));
                return true;
            }
            i += 1;
        }
        false
    }

    /// Takes hold of every open task with that number of a change with that
    /// slug.
    fn claim_rows(
        &mut self,
        slug: &Option<String>,
        number: &str,
        holder: Option<SessionId>,
        until: &str,
        now: &str,
    )
        ensures
            final(self)@ == (StoreModel {
                tasks: changed(
                    old(self)@.tasks,
                    claimable(old(self)@.changes, slug.deep_view(), number@),
                    claimed(holder, until@, now@),
                ),
                ..old(self)@
            }),
    {
        let ghost before = self@;
        let ghost p = claimable(before.changes, slug.deep_view(), number@);
        let ghost after = changed(before.tasks, p, claimed(holder, until@, now@));
        let mut i: usize = 0;
        while i < self.tasks.len()
            invariant
                i <= self.tasks@.len(),
                self.tasks@.len() == before.tasks.len(),
                p == claimable(before.changes, slug.deep_view(), number@),
                after == changed(before.tasks, p, claimed(holder, until@, now@)),
                self@ == (StoreModel { tasks: self@.tasks, ..before }),
                self@.tasks =~= after.take(i as int) + before.tasks.skip(i as int),
            decreases self.tasks@.len() - i,
        {
            let ghost rows = self@.tasks;
            assert(rows[i as int] == before.tasks[i as int]);
            let open = self.tasks[i].status == TaskStatus::Pending || self.tasks[i].status
                == TaskStatus::Running;
            let named = open && same(self.tasks[i].number.as_str(), number);
            let of_change = match slug {
                Some(name) => named && self.change_is_called(
                    self.tasks[i].change_id,
                    name.as_str(),
                ),
                None => false,
            };
            assert(of_change == p(before.tasks[i as int]));
            if of_change {
                self.tasks[i].claimed_by = holder;
                self.tasks[i].lease_until = Some(until.to_owned());
                self.tasks[i].status = TaskStatus::Running;
                self.tasks[i].updated_at = now.to_owned();
            }
            assert(self@.tasks[i as int] == after[i as int]);
            assert(self@.tasks =~= rows.update(i as int, after[i as int]));
            i += 1;
        }
        assert(self@.tasks =~= after);
    }

    /// Writes a binding onto a run, leaving alone whatever it does not name, and
    /// takes hold of the task it names.
    pub fn write_binding(
        &mut self,
        run: RunId,
        binding: &SpecBinding,
        now: &str,
        until: &str,
    ) -> (r: Result<(), StoreError>)
        ensures
            match write_binding_step(old(self)@, run, binding@, now@, until@) {
                Ok(after) => r is Ok && final(self)@ == after,
                Err(error) => outcome(r) == Err::<(), StoreErrorModel>(error) && final(self)@
                    == old(self)@,
            },
    {
        if self.run_index(run).is_none() {
            return Err(StoreError::RunNotFound(run));
        }
        self.bind_rows(run, binding, now);
        if let Some(described) = &binding.current_task {
            if let Some(number) = task_number_in(described.as_str()) {
                let slug = match self.run_index(run) {
                    Some(i) => copy_option(&self.runs[i].spec_change_id),
                    None => None,
                };
                assert(slug.deep_view() == bound_slug(self@, run));
                let holder = self.latest_session_of(run);
                self.claim_rows(&slug, number.as_str(), holder, until, now);
            }
        }
        Ok(())
    }
}

// --- finding a change and its open tasks -----------------------------------

/// A change that is neither archived nor abandoned.
pub open spec fn live_status(status: ChangeStatus) -> bool {
    status != ChangeStatus::Archived && status != ChangeStatus::Abandoned
}

/// Changes ordered by namespace. One without a namespace comes first.
pub open spec fn namespace_keys(changes: Seq<ChangeRowModel>) -> Seq<KeyModel> {
    Seq::new(
        changes.len(),
        |i: int|
            KeyModel {
                rank: 0,
                weight: 0,
                text: match changes[i].namespace {
                    Some(name) => name,
                    None => Seq::empty(),
                },
            },
    )
}

/// The live changes of a workspace that have a slug.
pub open spec fn called_in(
    changes: Seq<ChangeRowModel>,
    workspace: WorkspaceId,
    slug: Seq<char>,
) -> Seq<bool> {
    Seq::new(
        changes.len(),
        |i: int|
            changes[i].workspace_id == workspace && changes[i].slug == slug && live_status(
                changes[i].status,
            ),
    )
}

/// Smallest text first; of equal ones the row written first.
pub open spec fn ascending() -> Arrangement {
    Arrangement { text_descending: false, newest_row_first: false }
}

/// The live changes of a workspace that a slug names, by namespace.
pub open spec fn changes_called(s: StoreModel, workspace: WorkspaceId, slug: Seq<char>) -> Seq<
    int,
> {
    arranged(namespace_keys(s.changes), called_in(s.changes, workspace, slug), ascending())
}

/// A task that still has work in it.
pub open spec fn open_status(status: TaskStatus) -> bool {
    status != TaskStatus::Done && status != TaskStatus::Skipped
}

/// Tasks ordered by number.
pub open spec fn number_keys(tasks: Seq<TaskRowModel>) -> Seq<KeyModel> {
    Seq::new(tasks.len(), |i: int| KeyModel { rank: 0, weight: 0, text: tasks[i].number })
}

/// The open tasks of a change.
pub open spec fn open_tasks_of(tasks: Seq<TaskRowModel>, change: ChangeId) -> Seq<bool> {
    Seq::new(tasks.len(), |i: int| tasks[i].change_id == change && open_status(tasks[i].status))
}

/// The numbers of the open tasks of a change, in order.
pub open spec fn open_numbers(tasks: Seq<TaskRowModel>, change: ChangeId) -> Seq<Seq<char>> {
    let order = arranged(number_keys(tasks), open_tasks_of(tasks, change), ascending());
    Seq::new(order.len(), |i: int| tasks[order[i]].number)
}

impl Store {
    /// Where the live changes stand that a slug names in a workspace, by
    /// namespace.
    pub fn change_by_slug(&self, workspace: WorkspaceId, slug: &str) -> (r: Vec<usize>)
        ensures
            row_numbers(r@) == changes_called(self@, workspace, slug@),
            forall|i: int| 0 <= i < r@.len() ==> #[trigger] r@[i] < self.changes@.len(),
    {
        let ghost all_keys = namespace_keys(self@.changes);
        let ghost all_marks = called_in(self@.changes, workspace, slug@);
        let mut keys: Vec<SortKey> = Vec::new();
        let mut selected: Vec<bool> = Vec::new();
        let mut i: usize = 0;
        while i < self.changes.len()
            invariant
                i <= self.changes@.len(),
                all_keys == namespace_keys(self@.changes),
                all_marks == called_in(self@.changes, workspace, slug@),
                keys.deep_view() =~= all_keys.take(i as int),
                selected@ =~= all_marks.take(i as int),
            decreases self.changes@.len() - i,
        {
            let row = &self.changes[i];
            let text = match &row.namespace {
                Some(name) => copy_text(name),
                None => String::new(),
            };
            let key = SortKey { rank: 0, weight: 0, text };
            assert(key@ == all_keys[i as int]);
            let ghost listed = keys.deep_view();
            let ghost next = key@;
            keys.push(key);
            assert(keys.deep_view() =~= listed.push(next));
            let live = row.status != ChangeStatus::Archived && row.status
                != ChangeStatus::Abandoned;
            selected.push(row.workspace_id == workspace && same(row.slug.as_str(), slug) && live);
            i += 1;
        }
        assert(all_keys.take(i as int) =~= all_keys);
        assert(all_marks.take(i as int) =~= all_marks);
        arrange(
            &keys,
            &selected,
            Arrangement { text_descending: false, newest_row_first: false },
        )
    }

    /// The numbers of the open tasks of a change, in order.
    pub fn open_task_numbers(&self, change: ChangeId) -> (r: Vec<String>)
        ensures
            r.deep_view() == open_numbers(self@.tasks, change),
    {
        let ghost all_keys = number_keys(self@.tasks);
        let ghost all_marks = open_tasks_of(self@.tasks, change);
        let mut keys: Vec<SortKey> = Vec::new();
        let mut selected: Vec<bool> = Vec::new();
        let mut i: usize = 0;
        while i < self.tasks.len()
            invariant
                i <= self.tasks@.len(),
                all_keys == number_keys(self@.tasks),
                all_marks == open_tasks_of(self@.tasks, change),
                keys.deep_view() =~= all_keys.take(i as int),
                selected@ =~= all_marks.take(i as int),
            decreases self.tasks@.len() - i,
        {
            let row = &self.tasks[i];
            let key = SortKey { rank: 0, weight: 0, text: copy_text(&row.number) };
            assert(key@ == all_keys[i as int]);
            let ghost listed = keys.deep_view();
            let ghost next = key@;
            keys.push(key);
            assert(keys.deep_view() =~= listed.push(next));
            let open = row.status != TaskStatus::Done && row.status != TaskStatus::Skipped;
            selected.push(row.change_id == change && open);
            i += 1;
        }
        assert(all_keys.take(i as int) =~= all_keys);
        assert(all_marks.take(i as int) =~= all_marks);
        let order = arrange(
            &keys,
            &selected,
            Arrangement { text_descending: false, newest_row_first: false },
        );
        let ghost numbers = open_numbers(self@.tasks, change);
        let mut r: Vec<String> = Vec::new();
        let mut k: usize = 0;
        while k < order.len()
            invariant
                k <= order@.len(),
                numbers == open_numbers(self@.tasks, change),
                row_numbers(order@) == arranged(
                    number_keys(self@.tasks),
                    open_tasks_of(self@.tasks, change),
                    ascending(),
                ),
                forall|i: int| 0 <= i < order@.len() ==> #[trigger] order@[i] < self.tasks@.len(),
                r.deep_view() =~= numbers.take(k as int),
            decreases order@.len() - k,
        {
            let ghost listed = r.deep_view();
            assert(row_numbers(order@)[k as int] == order@[k as int] as int);
            r.push(copy_text(&self.tasks[order[k]].number));
            assert(r.deep_view() =~= listed.push(numbers[k as int]));
            k += 1;
        }
        assert(numbers.take(k as int) =~= numbers);
        r
    }
}

// --- closing a task --------------------------------------------------------

/// Being the task of a change that has a number.
pub open spec fn is_task_of(change: ChangeId, number: Seq<char>) -> spec_fn(TaskRowModel) -> bool {
    |t: TaskRowModel| t.change_id == change && t.number == number
}

/// Being the task `id`, of a change, under a number.
pub open spec fn is_task_row(id: TaskId, change: ChangeId, number: Seq<char>) -> spec_fn(
    TaskRowModel,
) -> bool {
    |t: TaskRowModel| t.id == id && t.change_id == change && t.number == number
}

/// Being an edit that was made for that task and landed on a file another
/// session was holding.
pub open spec fn trespasses(
    tasks: Seq<TaskRowModel>,
    change: ChangeId,
    number: Seq<char>,
) -> spec_fn(LedgerRowModel) -> bool {
    |l: LedgerRowModel|
        {
            &&& l.trespass_on is Some
            &&& l.task_id matches Some(id) && any_row(tasks, is_task_row(id, change, number))
        }
}

/// Being the change `id`.
pub open spec fn is_change(id: ChangeId) -> spec_fn(ChangeRowModel) -> bool {
    |c: ChangeRowModel| c.id == id
}

/// A task after a tick: done, proved, and held by nobody.
pub open spec fn closed(output: Seq<char>, now: Seq<char>) -> spec_fn(
    TaskRowModel,
) -> TaskRowModel {
    |t: TaskRowModel|
        TaskRowModel {
            status: TaskStatus::Done,
            evidence: Some(output),
            verified_at: Some(now),
            updated_at: now,
            claimed_by: None,
            lease_until: None,
            ..t
        }
}

/// A change with no task left open.
pub open spec fn readied(now: Seq<char>) -> spec_fn(ChangeRowModel) -> ChangeRowModel {
    |c: ChangeRowModel| ChangeRowModel { status: ChangeStatus::Ready, updated_at: now, ..c }
}

/// Not carried by the output.
pub open spec fn absent_from(output: Seq<char>) -> spec_fn(Seq<char>) -> bool {
    |marker: Seq<char>| !occurs_in(trimmed(marker), output)
}

/// The markers the output does not carry. Whitespace around a marker is how the
/// plan was written and not part of what it claims.
pub open spec fn missing_markers(markers: Seq<Seq<char>>, output: Seq<char>) -> Seq<Seq<char>> {
    markers.filter(absent_from(output))
}

/// How a namespace is named in a refusal.
pub open spec fn namespace_label(namespace: Option<Seq<char>>) -> Seq<char> {
    match namespace {
        Some(name) => name,
        None => "(no namespace)"@,
    }
}

/// The slug a run is bound to, by its binding.
pub open spec fn slug_of(run: RunViewModel) -> Option<Seq<char>> {
    match run.spec {
        Some(spec) => spec.change_id,
        None => None,
    }
}

/// The change a tick belongs to: the one live change the run's slug names.
pub open spec fn tick_target(s: StoreModel, run_id: RunId, run: RunViewModel) -> Result<
    ChangeId,
    StoreErrorModel,
> {
    match slug_of(run) {
        None => Err(StoreErrorModel::RunNotBoundToChange { run: run_id }),
        Some(slug) => {
            let found = changes_called(s, run.workspace_id, slug);
            if found.len() > 1 {
                Err(
                    StoreErrorModel::ChangeSlugAmbiguous {
                        slug,
                        namespaces: Seq::new(
                            found.len(),
                            |i: int| namespace_label(s.changes[found[i]].namespace),
                        ),
                    },
                )
            } else if found.len() == 0 {
                Err(StoreErrorModel::ChangeSlugNotFound(slug))
            } else {
                Ok(s.changes[found[0]].id)
            }
        },
    }
}

/// The markers a tick for that task is held to, or why the tick is refused: no
/// such task, another command, or a file that was another task's.
pub open spec fn tick_markers(
    s: StoreModel,
    change: ChangeId,
    slug: Seq<char>,
    done: TaskDoneModel,
) -> Result<Seq<Seq<char>>, StoreErrorModel> {
    match first_row(s.tasks, is_task_of(change, done.number)) {
        None => Err(
            StoreErrorModel::TaskNotFound {
                slug,
                number: done.number,
                open: open_numbers(s.tasks, change),
            },
        ),
        Some(task) => {
            if trimmed(task.verify_command) != trimmed(done.verify_command) {
                Err(
                    StoreErrorModel::VerifyCommandMismatch {
                        number: done.number,
                        expected: task.verify_command,
                    },
                )
            } else {
                match first_row(s.ledger, trespasses(s.tasks, change, done.number)) {
                    Some(edit) => Err(
                        StoreErrorModel::FileHeldByAnotherTask {
                            number: done.number,
                            path: edit.path,
                            holder: edit.trespass_on->0,
                        },
                    ),
                    None => match json_list_parsed(task.expected_output_json) {
                        Ok(markers) => Ok(markers),
                        Err(reason) => Err(StoreErrorModel::Serialization(reason)),
                    },
                }
            }
        },
    }
}

/// The store after a tick was written, and the tick into the journal.
pub open spec fn with_tick(
    s: StoreModel,
    run_id: RunId,
    change: ChangeId,
    done: TaskDoneModel,
    missing: Seq<Seq<char>>,
    now: Seq<char>,
) -> StoreModel {
    StoreModel {
        tasks: changed(s.tasks, is_task_of(change, done.number), closed(done.output, now)),
        ticks: s.ticks.push(
            TickRowModel {
                change_id: change,
                number: done.number,
                verify_command: done.verify_command,
                output: done.output,
                missing_json: json_list_text(missing),
                run_id,
                created_at: now,
            },
        ),
        ..s
    }
}

/// The store after a change whose tasks are all closed was moved to `ready`.
pub open spec fn with_ready(s: StoreModel, change: ChangeId, now: Seq<char>) -> StoreModel {
    if open_numbers(s.tasks, change).len() == 0 {
        StoreModel { changes: changed(s.changes, is_change(change), readied(now)), ..s }
    } else {
        s
    }
}

/// A tick: what it did and the store after it, or why it was refused. The
/// refusals come in this order: the run's binding, what the slug resolves to,
/// the number, the command, the ledger.
pub open spec fn close_task_step(
    s: StoreModel,
    run_id: RunId,
    run: RunViewModel,
    done: TaskDoneModel,
    now: Seq<char>,
) -> Result<(TaskClosedModel, StoreModel), StoreErrorModel> {
    match tick_target(s, run_id, run) {
        Err(error) => Err(error),
        Ok(change) => match tick_markers(s, change, slug_of(run)->0, done) {
            Err(error) => Err(error),
            Ok(markers) => {
                let missing = missing_markers(markers, done.output);
                let ticked = with_tick(s, run_id, change, done, missing, now);
                Ok(
                    (
                        TaskClosedModel {
                            number: done.number,
                            expected_output_missing: missing,
                            change_ready: open_numbers(ticked.tasks, change).len() == 0,
                        },
                        with_ready(ticked, change, now),
                    ),
                )
            },
        },
    }
}

impl Store {
    /// The change a tick belongs to.
    fn resolve_tick(&self, run_id: RunId, run: &RunView) -> (r: Result<ChangeId, StoreError>)
        ensures
            outcome(r) == tick_target(self@, run_id, run@),
    {
        let slug = match &run.spec {
            Some(spec) => match &spec.change_id {
                Some(slug) => slug,
                None => {
                    return Err(StoreError::RunNotBoundToChange { run: run_id });
                },
            },
            None => {
                return Err(StoreError::RunNotBoundToChange { run: run_id });
            },
        };
        let found = self.change_by_slug(run.workspace_id, slug.as_str());
        let ghost order = changes_called(self@, run.workspace_id, slug@);
        if found.len() > 1 {
            let ghost all = Seq::new(
                order.len(),
                |i: int| namespace_label(self@.changes[order[i]].namespace),
            );
            let mut namespaces: Vec<String> = Vec::new();
            let mut i: usize = 0;
            while i < found.len()
                invariant
                    i <= found@.len(),
                    row_numbers(found@) == order,
                    forall|i: int|
                        0 <= i < found@.len() ==> #[trigger] found@[i] < self.changes@.len(),
                    all == Seq::new(
                        order.len(),
                        |i: int| namespace_label(self@.changes[order[i]].namespace),
                    ),
                    namespaces.deep_view() =~= all.take(i as int),
                decreases found@.len() - i,
            {
                let ghost listed = namespaces.deep_view();
                assert(order[i as int] == found@[i as int] as int);
                let label = match &self.changes[found[i]].namespace {
                    Some(name) => copy_text(name),
                    None => "(no namespace)".to_owned(),
                };
                namespaces.push(label);
                assert(namespaces.deep_view() =~= listed.push(all[i as int]));
                i += 1;
            }
            assert(all.take(i as int) =~= all);
            return Err(StoreError::ChangeSlugAmbiguous { slug: copy_text(slug), namespaces });
        }
        if found.len() == 0 {
            return Err(StoreError::ChangeSlugNotFound(copy_text(slug)));
        }
        assert(order[0] == found@[0] as int);
        Ok(self.changes[found[0]].id)
    }

    /// Where the task of a change stands that has a number.
    fn task_index(&self, change: ChangeId, number: &str) -> (r: Option<usize>)
        ensures
            match r {
                Some(i) => i < self.tasks@.len() && first_row(
                    self@.tasks,
                    is_task_of(change, number@),
                ) == Some(self.tasks@[i as int]@),
                None => first_row(self@.tasks, is_task_of(change, number@)) is None,
            },
    {
        let ghost p = is_task_of(change, number@);
        let mut i: usize = 0;
        while i < self.tasks.len()
            invariant
                i <= self.tasks@.len(),
                p == is_task_of(change, number@),
                forall|j: int| 0 <= j < i ==> !p(#[trigger] self@.tasks[j]),
            decreases self.tasks@.len() - i,
        {
            if self.tasks[i].change_id == change && same(self.tasks[i].number.as_str(), number) {
                proof {
                    assert(is_first(self@.tasks, p, i as int));
                    lemma_first(self@.tasks, p, i as int);
                }
                return Some(i);
            }
            i += 1;
        }
        proof {
            lemma_no_first(self@.tasks, p);
        }
        None
    }

    /// Whether the task `id` is the one of a change that has a number.
    fn is_numbered_task(&self, id: TaskId, change: ChangeId, number: &str) -> (r: bool)
        ensures
            r == any_row(self@.tasks, is_task_row(id, change, number@)),
    {
        let mut i: usize = 0;
        while i < self.tasks.len()
            invariant
                i <= self.tasks@.len(),
                forall|j: int|
                    0 <= j < i ==> !is_task_row(id, change, number@)(#[trigger] self@.tasks[j]),
            decreases self.tasks@.len() - i,
        {
            let row = &self.tasks[i];
            if row.id == id && row.change_id == change && same(row.number.as_str(), number) {
                assert(is_task_row(id, change, number@)(self@.tasks[i as int]));
                return true;
            }
            i += 1;
        }
        false
    }

    /// The first edit made for a task that landed on a file another session was
    /// holding.
    fn first_trespass(&self, change: ChangeId, number: &str) -> (r: Option<usize>)
        ensures
            match r {
                Some(i) => i < self.ledger@.len() && first_row(
                    self@.ledger,
                    trespasses(self@.tasks, change, number@),
                ) == Some(self.ledger@[i as int]@) && self.ledger@[i as int].trespass_on is Some,
                None => first_row(self@.ledger, trespasses(self@.tasks, change, number@)) is None,
            },
    {
        let ghost p = trespasses(self@.tasks, change, number@);
        let mut i: usize = 0;
        while i < self.ledger.len()
            invariant
                i <= self.ledger@.len(),
                p == trespasses(self@.tasks, change, number@),
                forall|j: int| 0 <= j < i ==> !p(#[trigger] self@.ledger[j]),
            decreases self.ledger@.len() - i,
        {
            let row = &self.ledger[i];
            let accused = match row.task_id {
                Some(id) => row.trespass_on.is_some() && self.is_numbered_task(id, change, number),
                None => false,
            };
            assert(accused == p(self@.ledger[i as int]));
            if accused {
                proof {
                    assert(is_first(self@.ledger, p, i as int));
                    lemma_first(self@.ledger, p, i as int);
                }
                return Some(i);
            }
            i += 1;
        }
        proof {
            lemma_no_first(self@.ledger, p);
        }
        None
    }

    /// The markers a tick is held to, or why it is refused.
    fn check_tick(&self, change: ChangeId, slug: &str, done: &TaskDone) -> (r: Result<
        Vec<String>,
        StoreError,
    >)
        ensures
            outcome(r) == tick_markers(self@, change, slug@, done@),
    {
        let at: usize = match self.task_index(change, done.number.as_str()) {
            Some(i) => i,
            None => {
                return Err(
                    StoreError::TaskNotFound {
                        slug: slug.to_owned(),
                        number: copy_text(&done.number),
                        open: self.open_task_numbers(change),
                    },
                );
            },
        };
        let task = &self.tasks[at];
        let planned = trim(task.verify_command.as_str());
        let ran = trim(done.verify_command.as_str());
        if !same(planned.as_str(), ran.as_str()) {
            return Err(
                StoreError::VerifyCommandMismatch {
                    number: copy_text(&done.number),
                    expected: copy_text(&task.verify_command),
                },
            );
        }
        if let Some(i) = self.first_trespass(change, done.number.as_str()) {
            let edit = &self.ledger[i];
            let holder = match &edit.trespass_on {
                Some(number) => copy_text(number),
                None => String::new(),
            };
            return Err(
                StoreError::FileHeldByAnotherTask {
                    number: copy_text(&done.number),
                    path: copy_text(&edit.path),
                    holder,
                },
            );
        }
        match read_json_list(task.expected_output_json.as_str()) {
            Ok(markers) => Ok(markers),
            Err(reason) => Err(StoreError::Serialization(reason)),
        }
    }

    /// Closes the rows of a task.
    fn close_rows(&mut self, change: ChangeId, number: &str, output: &str, now: &str)
        ensures
            final(self)@ == (StoreModel {
                tasks: changed(
                    old(self)@.tasks,
                    is_task_of(change, number@),
                    closed(output@, now@),
                ),
                ..old(self)@
            }),
    {
        let ghost before = self@;
        let ghost after = changed(
            before.tasks,
            is_task_of(change, number@),
            closed(output@, now@),
        );
        let mut i: usize = 0;
        while i < self.tasks.len()
            invariant
                i <= self.tasks@.len(),
                self.tasks@.len() == before.tasks.len(),
                after == changed(
                    before.tasks,
                    is_task_of(change, number@),
                    closed(output@, now@),
                ),
                self@ == (StoreModel { tasks: self@.tasks, ..before }),
                self@.tasks =~= after.take(i as int) + before.tasks.skip(i as int),
            decreases self.tasks@.len() - i,
        {
            let ghost rows = self@.tasks;
            assert(rows[i as int] == before.tasks[i as int]);
            if self.tasks[i].change_id == change && same(self.tasks[i].number.as_str(), number) {
                self.tasks[i].status = TaskStatus::Done;
                self.tasks[i].evidence = Some(output.to_owned());
                self.tasks[i].verified_at = Some(now.to_owned());
                self.tasks[i].updated_at = now.to_owned();
                self.tasks[i].claimed_by = None;
                self.tasks[i].lease_until = None;
            }
            assert(self@.tasks[i as int] == after[i as int]);
            assert(self@.tasks =~= rows.update(i as int, after[i as int]));
            i += 1;
        }
        assert(self@.tasks =~= after);
    }

    /// Moves a change to `ready` once no task of its plan is open, and says
    /// whether it is there.
    pub fn mark_change_ready(&mut self, change: ChangeId, now: &str) -> (r: bool)
        ensures
            r == (open_numbers(old(self)@.tasks, change).len() == 0),
            final(self)@ == with_ready(old(self)@, change, now@),
    {
        let open = self.open_task_numbers(change);
        assert(open.deep_view().len() == open@.len());
        if open.len() > 0 {
            return false;
        }
        let ghost before = self@;
        let ghost after = changed(before.changes, is_change(change), readied(now@));
        let mut i: usize = 0;
        while i < self.changes.len()
            invariant
                i <= self.changes@.len(),
                self.changes@.len() == before.changes.len(),
                after == changed(before.changes, is_change(change), readied(now@)),
                self@ == (StoreModel { changes: self@.changes, ..before }),
                self@.changes =~= after.take(i as int) + before.changes.skip(i as int),
            decreases self.changes@.len() - i,
        {
            let ghost rows = self@.changes;
            assert(rows[i as int] == before.changes[i as int]);
            if self.changes[i].id == change {
                self.changes[i].status = ChangeStatus::Ready;
                self.changes[i].updated_at = now.to_owned();
            }
            assert(self@.changes[i as int] == after[i as int]);
            assert(self@.changes =~= rows.update(i as int, after[i as int]));
            i += 1;
        }
        assert(self@.changes =~= after);
        true
    }

    /// Closes the task a checkpoint ticks off, and says what the tick did.
    ///
    /// The change is taken from the run's own binding rather than from the
    /// caller. The output is kept as it came, and compared with the markers the
    /// plan expected only to report the comparison.
    pub fn close_task(
        &mut self,
        run_id: RunId,
        run: &RunView,
        done: &TaskDone,
        now: &str,
    ) -> (r: Result<TaskClosed, StoreError>)
        ensures
            match close_task_step(old(self)@, run_id, run@, done@, now@) {
                Ok((result, after)) => outcome(r) == Ok::<TaskClosedModel, StoreErrorModel>(result)
                    && final(self)@ == after,
                Err(error) => outcome(r) == Err::<TaskClosedModel, StoreErrorModel>(error)
                    && final(self)@ == old(self)@,
            },
    {
        let change = match self.resolve_tick(run_id, run) {
            Ok(id) => id,
            Err(error) => {
                return Err(error);
            },
        };
        let slug = match &run.spec {
            Some(spec) => match &spec.change_id {
                Some(slug) => copy_text(slug),
                None => String::new(),
            },
            None => String::new(),
        };
        let markers = match self.check_tick(change, slug.as_str(), done) {
            Ok(markers) => markers,
            Err(error) => {
                return Err(error);
            },
        };
        let missing = absent_markers(&markers, done.output.as_str());
        let ghost before = self@;
        self.close_rows(change, done.number.as_str(), done.output.as_str(), now);
        let row = TickRow {
            change_id: change,
            number: copy_text(&done.number),
            verify_command: copy_text(&done.verify_command),
            output: copy_text(&done.output),
            missing_json: write_json_list(&missing),
            run_id,
            created_at: now.to_owned(),
        };
        let ghost journal = self@.ticks;
        let ghost entry = row@;
        self.ticks.push(row);
        assert(self@.ticks =~= journal.push(entry));
        assert(self@ =~= with_tick(before, run_id, change, done@, missing.deep_view(), now@));
        let change_ready = self.mark_change_ready(change, now);
        Ok(
            TaskClosed {
                number: copy_text(&done.number),
                expected_output_missing: missing,
                change_ready,
            },
        )
    }
}

/// The markers the output does not carry.
pub fn absent_markers(markers: &Vec<String>, output: &str) -> (r: Vec<String>)
    ensures
        r.deep_view() == missing_markers(markers.deep_view(), output@),
{
    let ghost p = absent_from(output@);
    let ghost all = markers.deep_view();
    let mut r: Vec<String> = Vec::new();
    let mut i: usize = 0;
    assert(all.take(0).filter(p) =~= Seq::<Seq<char>>::empty()) by {
        reveal(Seq::filter);
    }
    while i < markers.len()
        invariant
            i <= markers@.len(),
            p == absent_from(output@),
            all == markers.deep_view(),
            r.deep_view() =~= all.take(i as int).filter(p),
        decreases markers@.len() - i,
    {
        let ghost listed = r.deep_view();
        proof {
            assert(all.take(i + 1) =~= all.take(i as int).push(all[i as int]));
            all.take(i as int).lemma_filter_push(all[i as int], p);
        }
        let marker = trim(markers[i].as_str());
        if !contains(output, marker.as_str()) {
            r.push(copy_text(&markers[i]));
            assert(r.deep_view() =~= listed.push(all[i as int]));
        }
        i += 1;
    }
    assert(all.take(i as int) =~= all);
    r
}
} // verus!
