//! Identifiers that are taken.
//!
//! A row is addressed by its identifier, so that no table takes a second row under one.

use vstd::prelude::*;

use crate::error::{StoreError, StoreErrorModel};
use crate::ids::{
    ChangeId, CheckpointId, DependencyId, FactId, RepositoryId, RunId, SessionId, WorkspaceId,
};
use crate::tables::{Store, StoreModel};
use crate::text::concat2;

verus! {

/// The refusal of a second row under the identifier of a table.
pub open spec fn taken(column: Seq<char>) -> StoreErrorModel {
    StoreErrorModel::Database("UNIQUE constraint failed: "@ + column)
}

/// The refusal of a reference to a row that is not there.
pub open spec fn dangling() -> StoreErrorModel {
    StoreErrorModel::Database("FOREIGN KEY constraint failed"@)
}

/// The refusal of a second row under the identifier of a table.
pub fn taken_error(column: &str) -> (r: StoreError)
    ensures
        r@ == taken(column@),
{
    StoreError::Database(concat2("UNIQUE constraint failed: ", column))
}

/// The refusal of a reference to a row that is not there.
pub fn dangling_error() -> (r: StoreError)
    ensures
        r@ == dangling(),
{
    StoreError::Database("FOREIGN KEY constraint failed".to_owned())
}

/// Being the identifier of a workspace that is there.
pub open spec fn workspace_taken(s: StoreModel, id: WorkspaceId) -> bool {
    exists|i: int| 0 <= i < s.workspaces.len() && (#[trigger] s.workspaces[i]).id == id
}

/// Being the identifier of a repository that is there.
pub open spec fn repository_taken(s: StoreModel, id: RepositoryId) -> bool {
    exists|i: int| 0 <= i < s.repositories.len() && (#[trigger] s.repositories[i]).id == id
}

/// Being the identifier of a run that is there.
pub open spec fn run_taken(s: StoreModel, id: RunId) -> bool {
    exists|i: int| 0 <= i < s.runs.len() && (#[trigger] s.runs[i]).id == id
}

/// Being the identifier of a session that is there.
pub open spec fn session_taken(s: StoreModel, id: SessionId) -> bool {
    exists|i: int| 0 <= i < s.sessions.len() && (#[trigger] s.sessions[i]).id == id
}

/// Being the identifier of a checkpoint that is there.
pub open spec fn checkpoint_taken(s: StoreModel, id: CheckpointId) -> bool {
    exists|i: int| 0 <= i < s.checkpoints.len() && (#[trigger] s.checkpoints[i]).id == id
}

/// Being the identifier of a fact that is there.
pub open spec fn fact_taken(s: StoreModel, id: FactId) -> bool {
    exists|i: int| 0 <= i < s.facts.len() && (#[trigger] s.facts[i]).id == id
}

/// Being the identifier of a change that is there.
pub open spec fn change_taken(s: StoreModel, id: ChangeId) -> bool {
    exists|i: int| 0 <= i < s.changes.len() && (#[trigger] s.changes[i]).id == id
}

/// Being the identifier of a dependency that is there.
pub open spec fn dependency_taken(s: StoreModel, id: DependencyId) -> bool {
    exists|i: int| 0 <= i < s.dependencies.len() && (#[trigger] s.dependencies[i]).id == id
}

impl Store {
    /// Whether a workspace has this identifier.
    pub fn has_workspace(&self, id: WorkspaceId) -> (r: bool)
        ensures
            r == workspace_taken(self@, id),
    {
        let mut i: usize = 0;
        while i < self.workspaces.len()
            invariant
                i <= self.workspaces@.len(),
                forall|j: int| 0 <= j < i ==> (#[trigger] self@.workspaces[j]).id != id,
            decreases self.workspaces@.len() - i,
        {
            if self.workspaces[i].id == id {
                assert(self@.workspaces[i as int].id == id);
                return true;
            }
            i += 1;
        }
        false
    }

    /// Whether a repository has this identifier.
    pub fn has_repository(&self, id: RepositoryId) -> (r: bool)
        ensures
            r == repository_taken(self@, id),
    {
        let mut i: usize = 0;
        while i < self.repositories.len()
            invariant
                i <= self.repositories@.len(),
                forall|j: int| 0 <= j < i ==> (#[trigger] self@.repositories[j]).id != id,
            decreases self.repositories@.len() - i,
        {
            if self.repositories[i].id == id {
                assert(self@.repositories[i as int].id == id);
                return true;
            }
            i += 1;
        }
        false
    }

    /// Whether a run has this identifier.
    pub fn has_run(&self, id: RunId) -> (r: bool)
        ensures
            r == run_taken(self@, id),
    {
        let mut i: usize = 0;
        while i < self.runs.len()
            invariant
                i <= self.runs@.len(),
                forall|j: int| 0 <= j < i ==> (#[trigger] self@.runs[j]).id != id,
            decreases self.runs@.len() - i,
        {
            if self.runs[i].id == id {
                assert(self@.runs[i as int].id == id);
                return true;
            }
            i += 1;
        }
        false
    }

    /// Whether a session has this identifier.
    pub fn has_session(&self, id: SessionId) -> (r: bool)
        ensures
            r == session_taken(self@, id),
    {
        let mut i: usize = 0;
        while i < self.sessions.len()
            invariant
                i <= self.sessions@.len(),
                forall|j: int| 0 <= j < i ==> (#[trigger] self@.sessions[j]).id != id,
            decreases self.sessions@.len() - i,
        {
            if self.sessions[i].id == id {
                assert(self@.sessions[i as int].id == id);
                return true;
            }
            i += 1;
        }
        false
    }

    /// Whether a checkpoint has this identifier.
    pub fn has_checkpoint(&self, id: CheckpointId) -> (r: bool)
        ensures
            r == checkpoint_taken(self@, id),
    {
        let mut i: usize = 0;
        while i < self.checkpoints.len()
            invariant
                i <= self.checkpoints@.len(),
                forall|j: int| 0 <= j < i ==> (#[trigger] self@.checkpoints[j]).id != id,
            decreases self.checkpoints@.len() - i,
        {
            if self.checkpoints[i].id == id {
                assert(self@.checkpoints[i as int].id == id);
                return true;
            }
            i += 1;
        }
        false
    }

    /// Whether a fact has this identifier.
    pub fn has_fact(&self, id: FactId) -> (r: bool)
        ensures
            r == fact_taken(self@, id),
    {
        let mut i: usize = 0;
        while i < self.facts.len()
            invariant
                i <= self.facts@.len(),
                forall|j: int| 0 <= j < i ==> (#[trigger] self@.facts[j]).id != id,
            decreases self.facts@.len() - i,
        {
            if self.facts[i].id == id {
                assert(self@.facts[i as int].id == id);
                return true;
            }
            i += 1;
        }
        false
    }

    /// Whether a change has this identifier.
    pub fn has_change(&self, id: ChangeId) -> (r: bool)
        ensures
            r == change_taken(self@, id),
    {
        let mut i: usize = 0;
        while i < self.changes.len()
            invariant
                i <= self.changes@.len(),
                forall|j: int| 0 <= j < i ==> (#[trigger] self@.changes[j]).id != id,
            decreases self.changes@.len() - i,
        {
            if self.changes[i].id == id {
                assert(self@.changes[i as int].id == id);
                return true;
            }
            i += 1;
        }
        false
    }

    /// Whether a dependency has this identifier.
    pub fn has_dependency(&self, id: DependencyId) -> (r: bool)
        ensures
            r == dependency_taken(self@, id),
    {
        let mut i: usize = 0;
        while i < self.dependencies.len()
            invariant
                i <= self.dependencies@.len(),
                forall|j: int| 0 <= j < i ==> (#[trigger] self@.dependencies[j]).id != id,
            decreases self.dependencies@.len() - i,
        {
            if self.dependencies[i].id == id {
                assert(self@.dependencies[i as int].id == id);
                return true;
            }
            i += 1;
        }
        false
    }
}

} // verus!
