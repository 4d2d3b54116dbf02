//! Which repository and workspace a directory belongs to.

use vstd::prelude::*;

use crate::domain::{GitState, GitStateModel};
use crate::error::{outcome, StoreError, StoreErrorModel};
use crate::git::{key_of, RepositoryProbe, RepositoryProbeModel};
use crate::ids::{RepositoryId, WorkspaceId};
use crate::keys::{repository_taken, taken, taken_error, workspace_taken};
use crate::moment::{clock_text, Moment};
use crate::outside::marked_random;
use crate::paths::{file_name, name_of};
use crate::rows::{changed, first_row, is_first, lemma_first, lemma_no_first};
use crate::states::RepositoryRole;
use crate::tables::{
    RepositoryRow, RepositoryRowModel, Store, StoreModel, WorkspaceRow, WorkspaceRowModel,
};
use crate::text::{copy_option, copy_text, same, starts_with};

verus! {

/// What a working directory resolved to.
#[derive(Debug, PartialEq, Eq)]
pub struct WorkspaceResolution {
    pub workspace_id: WorkspaceId,
    pub repository_id: RepositoryId,
    /// The key the repository is stored under.
    pub identity_key: String,
    pub toplevel: String,
    pub origin_url: Option<String>,
    /// `None` when the path is not inside a git repository.
    pub git: Option<GitState>,
    /// How freely this repository may be touched.
    pub role: RepositoryRole,
}

/// The contents of a [`WorkspaceResolution`].
#[verifier::ext_equal]
pub struct WorkspaceResolutionModel {
    pub workspace_id: WorkspaceId,
    pub repository_id: RepositoryId,
    pub identity_key: Seq<char>,
    pub toplevel: Seq<char>,
    pub origin_url: Option<Seq<char>>,
    pub git: Option<GitStateModel>,
    pub role: RepositoryRole,
}

impl View for WorkspaceResolution {
    type V = WorkspaceResolutionModel;

    open spec fn view(&self) -> WorkspaceResolutionModel {
        WorkspaceResolutionModel {
            workspace_id: self.workspace_id,
            repository_id: self.repository_id,
            identity_key: self.identity_key@,
            toplevel: self.toplevel@,
            origin_url: self.origin_url.deep_view(),
            git: self.git.deep_view(),
            role: self.role,
        }
    }
}

impl DeepView for WorkspaceResolution {
    type V = WorkspaceResolutionModel;

    open spec fn deep_view(&self) -> WorkspaceResolutionModel {
        self@
    }
}

/// Being stored under a key.
pub open spec fn keyed(key: Seq<char>) -> spec_fn(RepositoryRowModel) -> bool {
    |r: RepositoryRowModel| r.identity_key == key
}

/// Being filed under the path `root`, for want of an origin.
pub open spec fn filed_by_path(root: Seq<char>) -> spec_fn(RepositoryRowModel) -> bool {
    |r: RepositoryRowModel| r.canonical_root == root && "path:"@.is_prefix_of(r.identity_key)
}

/// Being the repository `id`.
pub open spec fn is_repository(id: RepositoryId) -> spec_fn(RepositoryRowModel) -> bool {
    |r: RepositoryRowModel| r.id == id
}

/// A repository given the identity of its origin.
pub open spec fn identified(key: Seq<char>, origin: Option<Seq<char>>) -> spec_fn(
    RepositoryRowModel,
) -> RepositoryRowModel {
    |r: RepositoryRowModel| RepositoryRowModel { identity_key: key, origin_url: origin, ..r }
}

/// What a probed directory resolves to in a repository that is already known.
pub open spec fn resolved_in(
    row: RepositoryRowModel,
    probe: RepositoryProbeModel,
    toplevel: Seq<char>,
) -> WorkspaceResolutionModel {
    WorkspaceResolutionModel {
        workspace_id: row.workspace_id,
        repository_id: row.id,
        identity_key: key_of(probe),
        toplevel,
        origin_url: probe.origin_url,
        git: probe.git,
        role: row.role,
    }
}

/// The name a new workspace gets: that of its directory.
pub open spec fn workspace_name(root: Seq<char>) -> Seq<char> {
    match name_of(root) {
        Some(name) => name,
        None => root,
    }
}

/// The store with a repository that was not known before, alone in a workspace
/// of its own.
pub open spec fn with_new_repository(
    s: StoreModel,
    probe: RepositoryProbeModel,
    workspace: WorkspaceId,
    repository: RepositoryId,
    now: Seq<char>,
) -> StoreModel {
    StoreModel {
        workspaces: s.workspaces.push(
            WorkspaceRowModel {
                id: workspace,
                name: workspace_name(probe.root),
                created_at: now,
                explicit: false,
            },
        ),
        repositories: s.repositories.push(
            RepositoryRowModel {
                id: repository,
                workspace_id: workspace,
                identity_key: key_of(probe),
                canonical_root: probe.root,
                origin_url: probe.origin_url,
                role: RepositoryRole::Primary,
                created_at: now,
            },
        ),
        ..s
    }
}

/// Recording a probed repository.
///
/// A known identity is found again. A directory that was filed under its path
/// while git was unavailable is given the identity of its origin, rather than a
/// second row that would split the project's memory in two. Anything else is
/// new, and gets a workspace of its own: gathering several repositories into one
/// workspace stays an explicit action.
pub open spec fn upsert_step(
    s: StoreModel,
    probe: RepositoryProbeModel,
    workspace: WorkspaceId,
    repository: RepositoryId,
    now: Seq<char>,
) -> (WorkspaceResolutionModel, StoreModel) {
    match first_row(s.repositories, keyed(key_of(probe))) {
        Some(row) => (resolved_in(row, probe, row.canonical_root), s),
        None => {
            let filed = if probe.origin_url is Some {
                first_row(s.repositories, filed_by_path(probe.root))
            } else {
                None
            };
            match filed {
                Some(row) => (
                    resolved_in(row, probe, probe.root),
                    StoreModel {
                        repositories: changed(
                            s.repositories,
                            is_repository(row.id),
                            identified(key_of(probe), probe.origin_url),
                        ),
                        ..s
                    },
                ),
                None => (
                    WorkspaceResolutionModel {
                        workspace_id: workspace,
                        repository_id: repository,
                        identity_key: key_of(probe),
                        toplevel: probe.root,
                        origin_url: probe.origin_url,
                        git: probe.git,
                        role: RepositoryRole::Primary,
                    },
                    with_new_repository(s, probe, workspace, repository, now),
                ),
            }
        },
    }
}

/// Why a probed repository cannot be recorded under the identifiers given for it: where it is
/// new, one of them is taken.
pub open spec fn place_refusal(
    s: StoreModel,
    probe: RepositoryProbeModel,
    workspace: WorkspaceId,
    repository: RepositoryId,
) -> Option<StoreErrorModel> {
    if first_row(s.repositories, keyed(key_of(probe))) is Some || (probe.origin_url is Some
        && first_row(s.repositories, filed_by_path(probe.root)) is Some) {
        None
    } else if workspace_taken(s, workspace) {
        Some(taken("workspaces.id"@))
    } else if repository_taken(s, repository) {
        Some(taken("repositories.id"@))
    } else {
        None
    }
}

/// Recording a probed repository, where nothing is against it.
pub open spec fn resolve_step(
    s: StoreModel,
    probe: RepositoryProbeModel,
    workspace: WorkspaceId,
    repository: RepositoryId,
    now: Seq<char>,
) -> (Result<WorkspaceResolutionModel, StoreErrorModel>, StoreModel) {
    match place_refusal(s, probe, workspace, repository) {
        Some(error) => (Err(error), s),
        None => {
            let (resolved, after) = upsert_step(s, probe, workspace, repository, now);
            (Ok(resolved), after)
        },
    }
}

fn copy_git(git: &Option<GitState>) -> (r: Option<GitState>)
    ensures
        r.deep_view() == git.deep_view(),
{
    match git {
        Some(inner) => Some(inner.dup()),
        None => None,
    }
}

impl Store {
    fn repository_by_key(&self, key: &str) -> (r: Option<usize>)
        ensures
            match r {
                Some(i) => i < self.repositories@.len() && first_row(
                    self@.repositories,
                    keyed(key@),
                ) == Some(self.repositories@[i as int]@),
                None => first_row(self@.repositories, keyed(key@)) is None,
            },
    {
        let ghost p = keyed(key@);
        let mut i: usize = 0;
        while i < self.repositories.len()
            invariant
                i <= self.repositories@.len(),
                p == keyed(key@),
                forall|j: int| 0 <= j < i ==> !p(#[trigger] self@.repositories[j]),
            decreases self.repositories@.len() - i,
        {
            if same(self.repositories[i].identity_key.as_str(), key) {
                proof {
                    assert(is_first(self@.repositories, p, i as int));
                    lemma_first(self@.repositories, p, i as int);
                }
                return Some(i);
            }
            i += 1;
        }
        proof {
            lemma_no_first(self@.repositories, p);
        }
        None
    }

    fn repository_by_path(&self, root: &str) -> (r: Option<usize>)
        ensures
            match r {
                Some(i) => i < self.repositories@.len() && first_row(
                    self@.repositories,
                    filed_by_path(root@),
                ) == Some(self.repositories@[i as int]@),
                None => first_row(self@.repositories, filed_by_path(root@)) is None,
            },
    {
        let ghost p = filed_by_path(root@);
        let mut i: usize = 0;
        while i < self.repositories.len()
            invariant
                i <= self.repositories@.len(),
                p == filed_by_path(root@),
                forall|j: int| 0 <= j < i ==> !p(#[trigger] self@.repositories[j]),
            decreases self.repositories@.len() - i,
        {
            let row = &self.repositories[i];
            if same(row.canonical_root.as_str(), root) && starts_with(
                row.identity_key.as_str(),
                "path:",
            ) {
                proof {
                    assert(is_first(self@.repositories, p, i as int));
                    lemma_first(self@.repositories, p, i as int);
                }
                return Some(i);
            }
            i += 1;
        }
        proof {
            lemma_no_first(self@.repositories, p);
        }
        None
    }

    fn identify_rows(&mut self, id: RepositoryId, key: &str, origin: &Option<String>)
        ensures
            final(self)@ == (StoreModel {
                repositories: changed(
                    old(self)@.repositories,
                    is_repository(id),
                    identified(key@, origin.deep_view()),
                ),
                ..old(self)@
            }),
    {
        let ghost before = self@;
        let ghost f = identified(key@, origin.deep_view());
        let ghost after = changed(before.repositories, is_repository(id), f);
        let mut i: usize = 0;
        while i < self.repositories.len()
            invariant
                i <= self.repositories@.len(),
                self.repositories@.len() == before.repositories.len(),
                f == identified(key@, origin.deep_view()),
                after == changed(before.repositories, is_repository(id), f),
                self@ == (StoreModel { repositories: self@.repositories, ..before }),
                self@.repositories =~= after.take(i as int) + before.repositories.skip(i as int),
            decreases self.repositories@.len() - i,
        {
            let ghost rows = self@.repositories;
            assert(rows[i as int] == before.repositories[i as int]);
            if self.repositories[i].id == id {
                self.repositories[i].identity_key = key.to_owned();
                self.repositories[i].origin_url = copy_option(origin);
            }
            assert(self@.repositories[i as int] == after[i as int]);
            assert(self@.repositories =~= rows.update(i as int, after[i as int]));
            i += 1;
        }
        assert(self@.repositories =~= after);
    }

    /// Why a probed repository cannot be recorded under the identifiers given for it.
    pub fn refused_place(
        &self,
        probe: &RepositoryProbe,
        workspace: WorkspaceId,
        repository: RepositoryId,
    ) -> (r: Option<StoreError>)
        ensures
            r.deep_view() == place_refusal(self@, probe@, workspace, repository),
    {
        let identity_key = probe.identity_key();
        if self.repository_by_key(identity_key.as_str()).is_some() {
            return None;
        }
        if probe.origin_url.is_some() && self.repository_by_path(probe.root.as_str()).is_some() {
            return None;
        }
        if self.has_workspace(workspace) {
            return Some(taken_error("workspaces.id"));
        }
        if self.has_repository(repository) {
            return Some(taken_error("repositories.id"));
        }
        None
    }

    /// Records a probed repository, creating it and a workspace for it alone when
    /// its identity is unseen.
    pub fn upsert_repository(
        &mut self,
        probe: &RepositoryProbe,
        workspace: WorkspaceId,
        repository: RepositoryId,
        now: &str,
    ) -> (r: Result<WorkspaceResolution, StoreError>)
        ensures
            (outcome(r), final(self)@) == resolve_step(
                old(self)@,
                probe@,
                workspace,
                repository,
                now@,
            ),
    {
        match self.refused_place(probe, workspace, repository) {
            Some(error) => Err(error),
            None => Ok(self.record_place(probe, workspace, repository, now)),
        }
    }

    /// Records a probed repository that nothing is against.
    pub fn record_place(
        &mut self,
        probe: &RepositoryProbe,
        workspace: WorkspaceId,
        repository: RepositoryId,
        now: &str,
    ) -> (r: WorkspaceResolution)
        ensures
            (r@, final(self)@) == upsert_step(old(self)@, probe@, workspace, repository, now@),
    {
        let ghost before = self@;
        let identity_key = probe.identity_key();
        if let Some(i) = self.repository_by_key(identity_key.as_str()) {
            let row = &self.repositories[i];
            return WorkspaceResolution {
                workspace_id: row.workspace_id,
                repository_id: row.id,
                identity_key,
                toplevel: copy_text(&row.canonical_root),
                origin_url: copy_option(&probe.origin_url),
                git: copy_git(&probe.git),
                role: row.role,
            };
        }
        if probe.origin_url.is_some() {
            if let Some(i) = self.repository_by_path(probe.root.as_str()) {
                let id = self.repositories[i].id;
                let r = WorkspaceResolution {
                    workspace_id: self.repositories[i].workspace_id,
                    repository_id: id,
                    identity_key: copy_text(&identity_key),
                    toplevel: copy_text(&probe.root),
                    origin_url: copy_option(&probe.origin_url),
                    git: copy_git(&probe.git),
                    role: self.repositories[i].role,
                };
                self.identify_rows(id, identity_key.as_str(), &probe.origin_url);
                return r;
            }
        }
        let name = match file_name(probe.root.as_str()) {
            Some(name) => name,
            None => copy_text(&probe.root),
        };
        let place = WorkspaceRow {
            id: workspace,
            name,
            created_at: now.to_owned(),
            explicit: false,
        };
        let row = RepositoryRow {
            id: repository,
            workspace_id: workspace,
            identity_key: copy_text(&identity_key),
            canonical_root: copy_text(&probe.root),
            origin_url: copy_option(&probe.origin_url),
            role: RepositoryRole::Primary,
            created_at: now.to_owned(),
        };
        let ghost added_place = place@;
        let ghost added_row = row@;
        self.workspaces.push(place);
        self.repositories.push(row);
        assert(self@.workspaces =~= before.workspaces.push(added_place));
        assert(self@.repositories =~= before.repositories.push(added_row));
        assert(self@ =~= with_new_repository(before, probe@, workspace, repository, now@));
        WorkspaceResolution {
            workspace_id: workspace,
            repository_id: repository,
            identity_key,
            toplevel: copy_text(&probe.root),
            origin_url: copy_option(&probe.origin_url),
            git: copy_git(&probe.git),
            role: RepositoryRole::Primary,
        }
    }

    /// Resolves a probed working directory to its repository and workspace,
    /// creating them on first sight. It succeeds for any directory, one outside
    /// git included, unless an identifier that is drawn for it is taken.
    pub fn resolve_workspace_for(&mut self, probe: &RepositoryProbe) -> (r: Result<
        WorkspaceResolution,
        StoreError,
    >)
        ensures
            exists|workspace: WorkspaceId, repository: RepositoryId, now: Seq<char>|
                {
                    let resolved = #[trigger] resolve_step(
                        old(self)@,
                        probe@,
                        workspace,
                        repository,
                        now,
                    );
                    &&& marked_random(workspace.0)
                    &&& marked_random(repository.0)
                    &&& clock_text(now)
                    &&& (outcome(r), final(self)@) == resolved
                },
    {
        let workspace = WorkspaceId::new();
        let repository = RepositoryId::new();
        let now = Moment::now().text();
        self.upsert_repository(probe, workspace, repository, now.as_str())
    }

    /// How many repositories are known.
    pub fn repository_count(&self) -> (r: usize)
        ensures
            r == self@.repositories.len(),
    {
        self.repositories.len()
    }
}

} // verus!
