//! Gathering repositories that belong together.
//!
//! A repository is rarely the right unit for everything that is known. How a group of
//! services authenticate to each other, or how their deploy pipeline behaves, is true of
//! all of them, and gets filed under whichever one happened to be open when it was
//! learned. Grouping is what lets that reach the rest.
//!
//! Grouping is always explicit. Guessing from directory layout is wrong often enough
//! that a wrong guess would silently merge unrelated projects' memory.

use vstd::prelude::*;

use crate::curation::{every, rescoped};
use crate::error::{outcome, StoreError, StoreErrorModel};
use crate::git::{RepositoryProbe, RepositoryProbeModel};
use crate::ids::{RepositoryId, WorkspaceId};
use crate::keys::{taken, taken_error, workspace_taken};
use crate::moment::{clock_text, Moment};
use crate::order::{arrange, arranged, row_numbers, Arrangement, KeyModel, SortKey};
use crate::outside::marked_random;
use crate::plan::ascending;
use crate::repositories::{is_repository, place_refusal, resolve_step, upsert_step};
use crate::rows::{
    any_row, changed, first_row, is_first, lemma_first, lemma_no_first, lemma_tally_step, tally,
};
use crate::states::{FactScope, RepositoryRole};
use crate::tables::{
    FactRowModel, RepositoryRowModel, RunRecordModel, Store, StoreModel, WorkspaceRow,
    WorkspaceRowModel,
};
use crate::text::{copy_text, same};

verus! {

/// A path to be grouped, and what it turned out to be.
#[derive(Debug, PartialEq, Eq)]
pub struct ProbedRoot {
    pub path: String,
    /// `None` where the path is not a directory.
    pub probe: Option<RepositoryProbe>,
}

/// The contents of a [`ProbedRoot`].
#[verifier::ext_equal]
pub struct ProbedRootModel {
    pub path: Seq<char>,
    pub probe: Option<RepositoryProbeModel>,
}

impl View for ProbedRoot {
    type V = ProbedRootModel;

    open spec fn view(&self) -> ProbedRootModel {
        ProbedRootModel {
            path: self.path@,
            probe: self.probe.deep_view(),
        }
    }
}

impl DeepView for ProbedRoot {
    type V = ProbedRootModel;

    open spec fn deep_view(&self) -> ProbedRootModel {
        self@
    }
}

/// What a grouping call did.
#[derive(Debug, PartialEq, Eq)]
pub struct WorkspaceGrouping {
    pub workspace_id: WorkspaceId,
    /// How many repositories now belong to it.
    pub repositories: usize,
    /// Paths that were not grouped, with the reason. Reported rather than registered: a
    /// path that is not there is a mistake in the call, and taking it at face value
    /// leaves a row keyed on nonsense.
    pub skipped: Vec<(String, String)>,
}

/// The contents of a [`WorkspaceGrouping`].
#[verifier::ext_equal]
pub struct WorkspaceGroupingModel {
    pub workspace_id: WorkspaceId,
    pub repositories: usize,
    pub skipped: Seq<(Seq<char>, Seq<char>)>,
}

impl View for WorkspaceGrouping {
    type V = WorkspaceGroupingModel;

    open spec fn view(&self) -> WorkspaceGroupingModel {
        WorkspaceGroupingModel {
            workspace_id: self.workspace_id,
            repositories: self.repositories,
            skipped: self.skipped.deep_view(),
        }
    }
}

impl DeepView for WorkspaceGrouping {
    type V = WorkspaceGroupingModel;

    open spec fn deep_view(&self) -> WorkspaceGroupingModel {
        self@
    }
}

// --- gathering -------------------------------------------------------------

/// Being the workspace somebody called `name`.
pub open spec fn is_group(name: Seq<char>) -> spec_fn(WorkspaceRowModel) -> bool {
    |w: WorkspaceRowModel| w.name == name && w.explicit
}

/// The workspace somebody called `name`.
pub open spec fn group_called(s: StoreModel, name: Seq<char>) -> Option<WorkspaceId> {
    match first_row(s.workspaces, is_group(name)) {
        Some(w) => Some(w.id),
        None => None,
    }
}

/// A repository in another workspace.
pub open spec fn moved_to(workspace: WorkspaceId) -> spec_fn(
    RepositoryRowModel,
) -> RepositoryRowModel {
    |r: RepositoryRowModel| RepositoryRowModel { workspace_id: workspace, ..r }
}

/// The store with a workspace of that name in it, and which one it is.
pub open spec fn with_group(
    s: StoreModel,
    name: Seq<char>,
    workspace: WorkspaceId,
    now: Seq<char>,
) -> (WorkspaceId, StoreModel) {
    match group_called(s, name) {
        Some(id) => (id, s),
        None => (
            workspace,
            StoreModel {
                workspaces: s.workspaces.push(
                    WorkspaceRowModel { id: workspace, name, created_at: now, explicit: true },
                ),
                ..s
            },
        ),
    }
}

/// The store with one probed directory in a workspace. The directory may be seen for the
/// first time here.
pub open spec fn with_member(
    s: StoreModel,
    probe: RepositoryProbeModel,
    workspace: WorkspaceId,
    ids: (WorkspaceId, RepositoryId),
    now: Seq<char>,
) -> StoreModel {
    let (resolved, t) = upsert_step(s, probe, ids.0, ids.1, now);
    StoreModel {
        repositories: changed(
            t.repositories,
            is_repository(resolved.repository_id),
            moved_to(workspace),
        ),
        ..t
    }
}

/// The store with the first `count` of some paths in a workspace, as far as they are
/// directories.
pub open spec fn with_members(
    s: StoreModel,
    roots: Seq<ProbedRootModel>,
    workspace: WorkspaceId,
    ids: Seq<(WorkspaceId, RepositoryId)>,
    now: Seq<char>,
    count: int,
) -> StoreModel
    decreases count,
{
    if count <= 0 {
        s
    } else {
        let t = with_members(s, roots, workspace, ids, now, count - 1);
        match roots[count - 1].probe {
            Some(probe) => with_member(t, probe, workspace, ids[count - 1], now),
            None => t,
        }
    }
}

/// The paths that are not directories, with the reason they were left out.
pub open spec fn left_out(roots: Seq<ProbedRootModel>) -> Seq<(Seq<char>, Seq<char>)>
    decreases roots.len(),
{
    if roots.len() == 0 {
        Seq::empty()
    } else {
        let before = left_out(roots.drop_last());
        match roots.last().probe {
            Some(_) => before,
            None => before.push((roots.last().path, "not a directory"@)),
        }
    }
}

/// Holding a repository of a workspace.
pub open spec fn repository_in(workspace: WorkspaceId) -> spec_fn(RepositoryRowModel) -> bool {
    |r: RepositoryRowModel| r.workspace_id == workspace
}

/// Being a run of a workspace.
pub open spec fn run_of(workspace: WorkspaceId) -> spec_fn(RunRecordModel) -> bool {
    |r: RunRecordModel| r.workspace_id == workspace
}

/// A workspace that is still needed: the one at hand, or one that holds a repository or
/// a run.
pub open spec fn needed(s: StoreModel, workspace: WorkspaceId) -> spec_fn(
    WorkspaceRowModel,
) -> bool {
    |w: WorkspaceRowModel|
        w.id == workspace || any_row(s.repositories, repository_in(w.id)) || any_row(
            s.runs,
            run_of(w.id),
        )
}

/// The store without the workspaces that are left with nothing: the remains of the
/// single-repository defaults that grouped directories used to sit in.
pub open spec fn pruned(s: StoreModel, workspace: WorkspaceId) -> StoreModel {
    StoreModel { workspaces: s.workspaces.filter(needed(s, workspace)), ..s }
}

/// Why the first `count` of some paths cannot be put into a workspace: one of them is a
/// directory seen for the first time, and an identifier given for it is taken by then.
pub open spec fn members_refusal(
    s: StoreModel,
    roots: Seq<ProbedRootModel>,
    workspace: WorkspaceId,
    ids: Seq<(WorkspaceId, RepositoryId)>,
    now: Seq<char>,
    count: int,
) -> Option<StoreErrorModel>
    decreases count,
{
    if count <= 0 {
        None
    } else {
        match members_refusal(s, roots, workspace, ids, now, count - 1) {
            Some(error) => Some(error),
            None => match roots[count - 1].probe {
                Some(probe) => place_refusal(
                    with_members(s, roots, workspace, ids, now, count - 1),
                    probe,
                    ids[count - 1].0,
                    ids[count - 1].1,
                ),
                None => None,
            },
        }
    }
}

/// Why directories cannot be gathered into the workspace called `name`: an identifier that
/// was given for it, or for one of them, is taken.
pub open spec fn group_refusal(
    s: StoreModel,
    name: Seq<char>,
    roots: Seq<ProbedRootModel>,
    workspace: WorkspaceId,
    ids: Seq<(WorkspaceId, RepositoryId)>,
    now: Seq<char>,
) -> Option<StoreErrorModel> {
    if group_called(s, name) is None && workspace_taken(s, workspace) {
        Some(taken("workspaces.id"@))
    } else {
        let (group, t) = with_group(s, name, workspace, now);
        members_refusal(t, roots, group, ids, now, roots.len() as int)
    }
}

/// The store with directories gathered into the workspace called `name`, and which one it is.
pub open spec fn gathered_into(
    s: StoreModel,
    name: Seq<char>,
    roots: Seq<ProbedRootModel>,
    workspace: WorkspaceId,
    ids: Seq<(WorkspaceId, RepositoryId)>,
    now: Seq<char>,
) -> (WorkspaceId, StoreModel) {
    let (group, t) = with_group(s, name, workspace, now);
    (group, pruned(with_members(t, roots, group, ids, now, roots.len() as int), group))
}

/// Being identifiers as they are drawn: each marked as a random one.
pub open spec fn all_drawn(ids: Seq<(WorkspaceId, RepositoryId)>) -> bool {
    forall|i: int|
        0 <= i < ids.len() ==> marked_random((#[trigger] ids[i]).0.0) && marked_random(
            ids[i].1.0,
        )
}

/// Gathering directories into the workspace called `name`, where nothing is against it.
pub open spec fn group_step(
    s: StoreModel,
    name: Seq<char>,
    roots: Seq<ProbedRootModel>,
    workspace: WorkspaceId,
    ids: Seq<(WorkspaceId, RepositoryId)>,
    now: Seq<char>,
) -> (Result<WorkspaceGroupingModel, StoreErrorModel>, StoreModel) {
    match group_refusal(s, name, roots, workspace, ids, now) {
        Some(error) => (Err(error), s),
        None => {
            let (group, after) = gathered_into(s, name, roots, workspace, ids, now);
            (
                Ok(
                    WorkspaceGroupingModel {
                        workspace_id: group,
                        repositories: tally(after.repositories, repository_in(group)) as usize,
                        skipped: left_out(roots),
                    },
                ),
                after,
            )
        },
    }
}

proof fn lemma_a_refusal_stands(
    s: StoreModel,
    roots: Seq<ProbedRootModel>,
    workspace: WorkspaceId,
    ids: Seq<(WorkspaceId, RepositoryId)>,
    now: Seq<char>,
    k: int,
    count: int,
)
    requires
        0 <= k <= count,
        members_refusal(s, roots, workspace, ids, now, k) is Some,
    ensures
        members_refusal(s, roots, workspace, ids, now, count) == members_refusal(
            s,
            roots,
            workspace,
            ids,
            now,
            k,
        ),
    decreases count,
{
    if k < count {
        lemma_a_refusal_stands(s, roots, workspace, ids, now, k, count - 1);
    }
}

/// A repository with another role.
pub open spec fn in_role(role: RepositoryRole) -> spec_fn(
    RepositoryRowModel,
) -> RepositoryRowModel {
    |r: RepositoryRowModel| RepositoryRowModel { role, ..r }
}

/// Recording how freely a repository may be touched.
pub open spec fn role_step(
    s: StoreModel,
    probe: RepositoryProbeModel,
    role: RepositoryRole,
    workspace: WorkspaceId,
    repository: RepositoryId,
    now: Seq<char>,
) -> (Result<(), StoreErrorModel>, StoreModel) {
    let (resolved, t) = resolve_step(s, probe, workspace, repository, now);
    match resolved {
        Err(error) => (Err(error), t),
        Ok(place) => (
            Ok(()),
            StoreModel {
                repositories: changed(
                    t.repositories,
                    is_repository(place.repository_id),
                    in_role(role),
                ),
                ..t
            },
        ),
    }
}

impl Store {
    /// A workspace's identifier, by the name it was grouped under.
    pub fn workspace_id_by_name(&self, name: &str) -> (r: Option<WorkspaceId>)
        ensures
            r == group_called(self@, name@),
    {
        let ghost p = is_group(name@);
        let mut i: usize = 0;
        while i < self.workspaces.len()
            invariant
                i <= self.workspaces@.len(),
                p == is_group(name@),
                forall|j: int| 0 <= j < i ==> !p(#[trigger] self@.workspaces[j]),
            decreases self.workspaces@.len() - i,
        {
            assert(self@.workspaces[i as int] == self.workspaces@[i as int]@);
            if self.workspaces[i].explicit && same(self.workspaces[i].name.as_str(), name) {
                proof {
                    assert(is_first(self@.workspaces, p, i as int));
                    lemma_first(self@.workspaces, p, i as int);
                }
                return Some(self.workspaces[i].id);
            }
            i += 1;
        }
        proof {
            lemma_no_first(self@.workspaces, p);
        }
        None
    }

    fn move_rows(&mut self, id: RepositoryId, workspace: WorkspaceId)
        ensures
            final(self)@ == (StoreModel {
                repositories: changed(
                    old(self)@.repositories,
                    is_repository(id),
                    moved_to(workspace),
                ),
                ..old(self)@
            }),
    {
        let ghost before = self@;
        let ghost p = is_repository(id);
        let ghost f = moved_to(workspace);
        let ghost after = changed(before.repositories, p, f);
        let mut i: usize = 0;
        while i < self.repositories.len()
            invariant
                i <= self.repositories@.len(),
                self.repositories@.len() == before.repositories.len(),
                p == is_repository(id),
                f == moved_to(workspace),
                after == changed(before.repositories, p, f),
                self@ == (StoreModel { repositories: self@.repositories, ..before }),
                self@.repositories =~= after.take(i as int) + before.repositories.skip(i as int),
            decreases self.repositories@.len() - i,
        {
            let ghost rows = self@.repositories;
            assert(rows[i as int] == before.repositories[i as int]);
            if self.repositories[i].id == id {
                self.repositories[i].workspace_id = workspace;
            }
            assert(self@.repositories[i as int] == after[i as int]);
            assert(self@.repositories =~= rows.update(i as int, after[i as int]));
            i += 1;
        }
        assert(self@.repositories =~= after);
    }

    fn has_repository_in(&self, workspace: WorkspaceId) -> (r: bool)
        ensures
            r == any_row(self@.repositories, repository_in(workspace)),
    {
        let ghost p = repository_in(workspace);
        let mut i: usize = 0;
        while i < self.repositories.len()
            invariant
                i <= self.repositories@.len(),
                p == repository_in(workspace),
                forall|j: int| 0 <= j < i ==> !p(#[trigger] self@.repositories[j]),
            decreases self.repositories@.len() - i,
        {
            assert(self@.repositories[i as int] == self.repositories@[i as int]@);
            if self.repositories[i].workspace_id == workspace {
                assert(p(self@.repositories[i as int]));
                return true;
            }
            i += 1;
        }
        false
    }

    fn has_run_in(&self, workspace: WorkspaceId) -> (r: bool)
        ensures
            r == any_row(self@.runs, run_of(workspace)),
    {
        let ghost p = run_of(workspace);
        let mut i: usize = 0;
        while i < self.runs.len()
            invariant
                i <= self.runs@.len(),
                p == run_of(workspace),
                forall|j: int| 0 <= j < i ==> !p(#[trigger] self@.runs[j]),
            decreases self.runs@.len() - i,
        {
            assert(self@.runs[i as int] == self.runs@[i as int]@);
            if self.runs[i].workspace_id == workspace {
                assert(p(self@.runs[i as int]));
                return true;
            }
            i += 1;
        }
        false
    }

    fn prune(&mut self, workspace: WorkspaceId)
        ensures
            final(self)@ == pruned(old(self)@, workspace),
    {
        let ghost before = self@;
        let ghost p = needed(before, workspace);
        let ghost all = before.workspaces;
        let mut kept: Vec<WorkspaceRow> = Vec::new();
        let mut i: usize = 0;
        assert(all.take(0).filter(p) =~= Seq::<WorkspaceRowModel>::empty()) by {
            reveal(Seq::filter);
        }
        assert(kept.deep_view() =~= Seq::<WorkspaceRowModel>::empty());
        while i < self.workspaces.len()
            invariant
                i <= self.workspaces@.len(),
                self@ == before,
                all == before.workspaces,
                p == needed(before, workspace),
                kept.deep_view() =~= all.take(i as int).filter(p),
            decreases self.workspaces@.len() - i,
        {
            let ghost row = all[i as int];
            proof {
                assert(all.take(i + 1) =~= all.take(i as int).push(row));
                all.take(i as int).lemma_filter_push(row, p);
            }
            assert(row == self.workspaces@[i as int]@);
            let ghost done = kept.deep_view();
            let id = self.workspaces[i].id;
            if id == workspace || self.has_repository_in(id) || self.has_run_in(id) {
                kept.push(self.workspaces[i].dup());
                assert(kept.deep_view() =~= done.push(row));
            }
            i += 1;
        }
        assert(all.take(i as int) =~= all);
        self.workspaces = kept;
        assert(self@ =~= pruned(before, workspace));
    }

    fn count_repositories_in(&self, workspace: WorkspaceId) -> (r: usize)
        ensures
            r == tally(self@.repositories, repository_in(workspace)),
    {
        let ghost p = repository_in(workspace);
        let mut count: usize = 0;
        let mut i: usize = 0;
        while i < self.repositories.len()
            invariant
                i <= self.repositories@.len(),
                p == repository_in(workspace),
                count <= i,
                count == tally(self@.repositories.take(i as int), p),
            decreases self.repositories@.len() - i,
        {
            proof {
                lemma_tally_step(self@.repositories, p, i as int);
            }
            assert(self@.repositories[i as int] == self.repositories@[i as int]@);
            if self.repositories[i].workspace_id == workspace {
                count += 1;
            }
            i += 1;
        }
        assert(self@.repositories.take(i as int) =~= self@.repositories);
        count
    }

    /// Gathers `roots` into the workspace called `name`, creating it if needed, under
    /// given identifiers and at a given time.
    pub fn group_into_workspace_at(
        &mut self,
        name: &str,
        roots: &Vec<ProbedRoot>,
        workspace: WorkspaceId,
        ids: &Vec<(WorkspaceId, RepositoryId)>,
        now: &str,
    ) -> (r: Result<WorkspaceGrouping, StoreError>)
        requires
            ids@.len() == roots@.len(),
        ensures
            (outcome(r), final(self)@) == group_step(
                old(self)@,
                name@,
                roots.deep_view(),
                workspace,
                ids.deep_view(),
                now@,
            ),
    {
        let ghost before = self@;
        let ghost all = roots.deep_view();
        let ghost numbers = ids.deep_view();
        // What is written below goes with the rest when one of the paths is refused.
        let backup = self.dup();
        let group = match self.workspace_id_by_name(name) {
            Some(id) => id,
            None => {
                if self.has_workspace(workspace) {
                    return Err(taken_error("workspaces.id"));
                }
                let row = WorkspaceRow {
                    id: workspace,
                    name: name.to_owned(),
                    created_at: now.to_owned(),
                    explicit: true,
                };
                let ghost added = row@;
                self.workspaces.push(row);
                assert(self@.workspaces =~= before.workspaces.push(added));
                assert(self@ =~= (StoreModel {
                    workspaces: before.workspaces.push(added),
                    ..before
                }));
                workspace
            },
        };
        let ghost start = self@;
        assert((group, start) == with_group(before, name@, workspace, now@));
        let mut skipped: Vec<(String, String)> = Vec::new();
        let mut i: usize = 0;
        assert(skipped.deep_view() =~= Seq::<(Seq<char>, Seq<char>)>::empty());
        assert(all.take(0) =~= Seq::<ProbedRootModel>::empty());
        while i < roots.len()
            invariant
                i <= roots@.len(),
                ids@.len() == roots@.len(),
                all == roots.deep_view(),
                numbers == ids.deep_view(),
                backup@ == before,
                before == old(self)@,
                (group, start) == with_group(before, name@, workspace, now@),
                group_called(before, name@) is None ==> !workspace_taken(before, workspace),
                members_refusal(start, all, group, numbers, now@, i as int) is None,
                self@ == with_members(start, all, group, numbers, now@, i as int),
                skipped.deep_view() == left_out(all.take(i as int)),
            decreases roots@.len() - i,
        {
            assert(all[i as int] == roots@[i as int]@);
            assert(numbers[i as int] == ids@[i as int]);
            assert(all.take(i + 1).drop_last() =~= all.take(i as int));
            assert(all.take(i + 1).last() == all[i as int]);
            match &roots[i].probe {
                Some(probe) => {
                    let resolved = match self.upsert_repository(
                        probe,
                        ids[i].0,
                        ids[i].1,
                        now,
                    ) {
                        Ok(resolved) => resolved,
                        Err(error) => {
                            proof {
                                lemma_a_refusal_stands(
                                    start,
                                    all,
                                    group,
                                    numbers,
                                    now@,
                                    i + 1,
                                    all.len() as int,
                                );
                            }
                            *self = backup;
                            return Err(error);
                        },
                    };
                    self.move_rows(resolved.repository_id, group);
                },
                None => {
                    let ghost done = skipped.deep_view();
                    let item = (copy_text(&roots[i].path), "not a directory".to_owned());
                    let ghost next = item.deep_view();
                    skipped.push(item);
                    assert(skipped.deep_view() =~= done.push(next));
                },
            }
            i += 1;
        }
        assert(all.take(i as int) =~= all);
        self.prune(group);
        Ok(
            WorkspaceGrouping {
                workspace_id: group,
                repositories: self.count_repositories_in(group),
                skipped,
            },
        )
    }

    /// Gathers `roots` into the workspace called `name`, creating it if needed.
    ///
    /// Calling it again with the same or additional roots extends the same workspace
    /// rather than making a second one of the same name.
    pub fn group_into_workspace(&mut self, name: &str, roots: &Vec<ProbedRoot>) -> (r: Result<
        WorkspaceGrouping,
        StoreError,
    >)
        ensures
            exists|
                workspace: WorkspaceId,
                ids: Seq<(WorkspaceId, RepositoryId)>,
                now: Seq<char>,
            |
                {
                    let grouped = #[trigger] group_step(
                        old(self)@,
                        name@,
                        roots.deep_view(),
                        workspace,
                        ids,
                        now,
                    );
                    &&& marked_random(workspace.0)
                    &&& ids.len() == roots@.len()
                    &&& all_drawn(ids)
                    &&& clock_text(now)
                    &&& (outcome(r), final(self)@) == grouped
                },
    {
        let workspace = WorkspaceId::new();
        let mut ids: Vec<(WorkspaceId, RepositoryId)> = Vec::new();
        let mut i: usize = 0;
        while i < roots.len()
            invariant
                i <= roots@.len(),
                ids@.len() == i,
                all_drawn(ids@),
            decreases roots@.len() - i,
        {
            ids.push((WorkspaceId::new(), RepositoryId::new()));
            i += 1;
        }
        assert(ids.deep_view() =~= ids@);
        let now = Moment::now().text();
        self.group_into_workspace_at(name, roots, workspace, &ids, now.as_str())
    }

    /// Records how freely a probed repository may be touched, under given identifiers
    /// and at a given time.
    pub fn set_repository_role_at(
        &mut self,
        probe: &RepositoryProbe,
        role: RepositoryRole,
        workspace: WorkspaceId,
        repository: RepositoryId,
        now: &str,
    ) -> (r: Result<(), StoreError>)
        ensures
            (outcome(r), final(self)@) == role_step(
                old(self)@,
                probe@,
                role,
                workspace,
                repository,
                now@,
            ),
    {
        let resolved = match self.upsert_repository(probe, workspace, repository, now) {
            Ok(resolved) => resolved,
            Err(error) => {
                return Err(error);
            },
        };
        let id = resolved.repository_id;
        let ghost before = self@;
        let ghost p = is_repository(id);
        let ghost f = in_role(role);
        let ghost after = changed(before.repositories, p, f);
        let mut i: usize = 0;
        while i < self.repositories.len()
            invariant
                i <= self.repositories@.len(),
                self.repositories@.len() == before.repositories.len(),
                p == is_repository(id),
                f == in_role(role),
                after == changed(before.repositories, p, f),
                self@ == (StoreModel { repositories: self@.repositories, ..before }),
                self@.repositories =~= after.take(i as int) + before.repositories.skip(i as int),
            decreases self.repositories@.len() - i,
        {
            let ghost rows = self@.repositories;
            assert(rows[i as int] == before.repositories[i as int]);
            if self.repositories[i].id == id {
                self.repositories[i].role = role;
            }
            assert(self@.repositories[i as int] == after[i as int]);
            assert(self@.repositories =~= rows.update(i as int, after[i as int]));
            i += 1;
        }
        assert(self@.repositories =~= after);
        Ok(())
    }

    /// Records how freely a probed repository may be touched.
    pub fn set_repository_role(&mut self, probe: &RepositoryProbe, role: RepositoryRole) -> (r:
        Result<(), StoreError>)
        ensures
            exists|workspace: WorkspaceId, repository: RepositoryId, now: Seq<char>|
                {
                    let recorded = #[trigger] role_step(
                        old(self)@,
                        probe@,
                        role,
                        workspace,
                        repository,
                        now,
                    );
                    &&& marked_random(workspace.0)
                    &&& marked_random(repository.0)
                    &&& clock_text(now)
                    &&& (outcome(r), final(self)@) == recorded
                },
    {
        let workspace = WorkspaceId::new();
        let repository = RepositoryId::new();
        let now = Moment::now().text();
        self.set_repository_role_at(probe, role, workspace, repository, now.as_str())
    }

    /// How many workspaces there are.
    pub fn workspace_count(&self) -> (r: usize)
        ensures
            r == self@.workspaces.len(),
    {
        self.workspaces.len()
    }
}

// --- promoting -------------------------------------------------------------

/// A current fact of a namespace that is about more than the person.
pub open spec fn promotable(namespace: Seq<char>) -> spec_fn(FactRowModel) -> bool {
    |f: FactRowModel|
        f.namespace == Some(namespace) && f.superseded_by is None && f.scope != FactScope::User
}

/// Moving a namespace's facts up to workspace scope.
pub open spec fn promote_step(
    s: StoreModel,
    namespace: Seq<char>,
    workspace: WorkspaceId,
    now: Seq<char>,
) -> (usize, StoreModel) {
    (
        tally(s.facts, promotable(namespace)) as usize,
        StoreModel {
            facts: changed(
                s.facts,
                promotable(namespace),
                rescoped(FactScope::Workspace, Some(workspace), now),
            ),
            ..s
        },
    )
}

/// Workspaces ordered by name.
pub open spec fn name_keys(workspaces: Seq<WorkspaceRowModel>) -> Seq<KeyModel> {
    Seq::new(workspaces.len(), |i: int| KeyModel { rank: 0, weight: 0, text: workspaces[i].name })
}

/// Every workspace, by name, with how many repositories it holds: those somebody named, and
/// those a repository got of its own.
pub open spec fn workspace_sizes(s: StoreModel) -> Seq<(Seq<char>, usize)> {
    let order = arranged(name_keys(s.workspaces), every(s.workspaces.len()), ascending());
    Seq::new(
        order.len(),
        |i: int|
            (
                s.workspaces[order[i]].name,
                tally(s.repositories, repository_in(s.workspaces[order[i]].id)) as usize,
            ),
    )
}

impl Store {
    /// Moves a namespace's facts up to workspace scope, at a given time.
    pub fn promote_namespace_at(
        &mut self,
        namespace: &str,
        workspace: WorkspaceId,
        now: &str,
    ) -> (r: usize)
        ensures
            (r, final(self)@) == promote_step(old(self)@, namespace@, workspace, now@),
    {
        let ghost before = self@;
        let ghost p = promotable(namespace@);
        let ghost f = rescoped(FactScope::Workspace, Some(workspace), now@);
        let ghost after = changed(before.facts, p, f);
        let mut moved: usize = 0;
        let mut i: usize = 0;
        while i < self.facts.len()
            invariant
                i <= self.facts@.len(),
                self.facts@.len() == before.facts.len(),
                p == promotable(namespace@),
                f == rescoped(FactScope::Workspace, Some(workspace), now@),
                after == changed(before.facts, p, f),
                self@ == (StoreModel { facts: self@.facts, ..before }),
                self@.facts =~= after.take(i as int) + before.facts.skip(i as int),
                moved <= i,
                moved == tally(before.facts.take(i as int), p),
            decreases self.facts@.len() - i,
        {
            let ghost rows = self@.facts;
            assert(rows[i as int] == before.facts[i as int]);
            proof {
                lemma_tally_step(before.facts, p, i as int);
            }
            let here = match &self.facts[i].namespace {
                Some(name) => same(name.as_str(), namespace),
                None => false,
            };
            if here && self.facts[i].superseded_by.is_none() && self.facts[i].scope
                != FactScope::User {
                self.facts[i].scope = FactScope::Workspace;
                self.facts[i].workspace_id = Some(workspace);
                self.facts[i].updated_at = now.to_owned();
                moved += 1;
            }
            assert(self@.facts[i as int] == after[i as int]);
            assert(self@.facts =~= rows.update(i as int, after[i as int]));
            i += 1;
        }
        assert(before.facts.take(i as int) =~= before.facts);
        assert(self@.facts =~= after);
        moved
    }

    /// Moves a namespace's facts up to workspace scope. Returns how many facts moved.
    ///
    /// A namespace that turns out to describe how a whole group fits together is only
    /// useful once it can be seen from the other repositories in it.
    pub fn promote_namespace(&mut self, namespace: &str, workspace: WorkspaceId) -> (r: usize)
        ensures
            exists|now: Seq<char>|
                clock_text(now) && (r, final(self)@) == #[trigger] promote_step(
                    old(self)@,
                    namespace@,
                    workspace,
                    now,
                ),
    {
        let now = Moment::now().text();
        self.promote_namespace_at(namespace, workspace, now.as_str())
    }

    /// Every workspace, with how many repositories it holds.
    pub fn workspaces(&self) -> (r: Vec<(String, usize)>)
        ensures
            r.deep_view() == workspace_sizes(self@),
    {
        let ghost all_keys = name_keys(self@.workspaces);
        let ghost all_marks = every(self@.workspaces.len());
        let mut keys: Vec<SortKey> = Vec::new();
        let mut selected: Vec<bool> = Vec::new();
        let mut i: usize = 0;
        while i < self.workspaces.len()
            invariant
                i <= self.workspaces@.len(),
                all_keys == name_keys(self@.workspaces),
                all_marks == every(self@.workspaces.len()),
                keys.deep_view() =~= all_keys.take(i as int),
                selected@ =~= all_marks.take(i as int),
            decreases self.workspaces@.len() - i,
        {
            let key = SortKey { rank: 0, weight: 0, text: copy_text(&self.workspaces[i].name) };
            assert(key@ == all_keys[i as int]);
            let ghost done = keys.deep_view();
            keys.push(key);
            assert(keys.deep_view() =~= done.push(all_keys[i as int]));
            selected.push(true);
            i += 1;
        }
        assert(all_keys.take(i as int) =~= all_keys);
        assert(all_marks.take(i as int) =~= all_marks);
        let order = arrange(
            &keys,
            &selected,
            Arrangement { text_descending: false, newest_row_first: false },
        );
        let ghost target = workspace_sizes(self@);
        let mut r: Vec<(String, usize)> = Vec::new();
        let mut k: usize = 0;
        while k < order.len()
            invariant
                k <= order@.len(),
                target == workspace_sizes(self@),
                row_numbers(order@) == arranged(
                    name_keys(self@.workspaces),
                    every(self@.workspaces.len()),
                    ascending(),
                ),
                forall|i: int|
                    0 <= i < order@.len() ==> #[trigger] order@[i] < self.workspaces@.len(),
                r.deep_view() =~= target.take(k as int),
            decreases order@.len() - k,
        {
            let ghost done = r.deep_view();
            assert(row_numbers(order@)[k as int] == order@[k as int] as int);
            let count = self.count_repositories_in(self.workspaces[order[k]].id);
            let item = (copy_text(&self.workspaces[order[k]].name), count);
            assert(item.deep_view() == target[k as int]);
            r.push(item);
            assert(r.deep_view() =~= done.push(target[k as int]));
            k += 1;
        }
        assert(target.take(k as int) =~= target);
        r
    }
}

} // verus!
