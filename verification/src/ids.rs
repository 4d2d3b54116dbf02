//! Identifiers.
//!
//! Every row the store addresses has an identifier of its own type, so that a
//! run cannot be looked up by the identifier of a session.

use vstd::prelude::*;

use crate::outside::{display_uuid, marked_random, random_uuid, uuid_text};

verus! {

/// A type of identifiers.
pub trait Identifier: Sized {
    /// The number the identifier is.
    spec fn number(&self) -> u128;

    /// The identifier with a given number.
    fn from_number(number: u128) -> (r: Self)
        ensures
            r.number() == number,
    ;
}

/// Identifies a run.
#[derive(Clone, Copy, Debug, PartialEq, Eq, PartialOrd, Ord, Hash, Structural)]
pub struct RunId(pub u128);

impl View for RunId {
    type V = RunId;

    open spec fn view(&self) -> RunId {
        *self
    }
}

impl DeepView for RunId {
    type V = RunId;

    open spec fn deep_view(&self) -> RunId {
        *self
    }
}

impl Identifier for RunId {
    open spec fn number(&self) -> u128 {
        self.0
    }

    fn from_number(number: u128) -> (r: Self)
        ensures
            r == RunId(number),
    {
        RunId(number)
    }
}

impl RunId {
    /// A random identifier.
    #[allow(clippy::new_without_default)]
    pub fn new() -> (r: Self)
        ensures
            marked_random(r.0),
    {
        RunId(random_uuid())
    }

    /// The identifier in the form it is written in.
    pub fn text(&self) -> (r: String)
        ensures
            r@ == uuid_text(self.0),
    {
        display_uuid(self.0)
    }
}

/// Identifies a session.
#[derive(Clone, Copy, Debug, PartialEq, Eq, PartialOrd, Ord, Hash, Structural)]
pub struct SessionId(pub u128);

impl View for SessionId {
    type V = SessionId;

    open spec fn view(&self) -> SessionId {
        *self
    }
}

impl DeepView for SessionId {
    type V = SessionId;

    open spec fn deep_view(&self) -> SessionId {
        *self
    }
}

impl Identifier for SessionId {
    open spec fn number(&self) -> u128 {
        self.0
    }

    fn from_number(number: u128) -> (r: Self)
        ensures
            r == SessionId(number),
    {
        SessionId(number)
    }
}

impl SessionId {
    /// A random identifier.
    #[allow(clippy::new_without_default)]
    pub fn new() -> (r: Self)
        ensures
            marked_random(r.0),
    {
        SessionId(random_uuid())
    }

    /// The identifier in the form it is written in.
    pub fn text(&self) -> (r: String)
        ensures
            r@ == uuid_text(self.0),
    {
        display_uuid(self.0)
    }
}

/// Identifies a workspace.
#[derive(Clone, Copy, Debug, PartialEq, Eq, PartialOrd, Ord, Hash, Structural)]
pub struct WorkspaceId(pub u128);

impl View for WorkspaceId {
    type V = WorkspaceId;

    open spec fn view(&self) -> WorkspaceId {
        *self
    }
}

impl DeepView for WorkspaceId {
    type V = WorkspaceId;

    open spec fn deep_view(&self) -> WorkspaceId {
        *self
    }
}

impl Identifier for WorkspaceId {
    open spec fn number(&self) -> u128 {
        self.0
    }

    fn from_number(number: u128) -> (r: Self)
        ensures
            r == WorkspaceId(number),
    {
        WorkspaceId(number)
    }
}

impl WorkspaceId {
    /// A random identifier.
    #[allow(clippy::new_without_default)]
    pub fn new() -> (r: Self)
        ensures
            marked_random(r.0),
    {
        WorkspaceId(random_uuid())
    }

    /// The identifier in the form it is written in.
    pub fn text(&self) -> (r: String)
        ensures
            r@ == uuid_text(self.0),
    {
        display_uuid(self.0)
    }
}

/// Identifies a repository.
#[derive(Clone, Copy, Debug, PartialEq, Eq, PartialOrd, Ord, Hash, Structural)]
pub struct RepositoryId(pub u128);

impl View for RepositoryId {
    type V = RepositoryId;

    open spec fn view(&self) -> RepositoryId {
        *self
    }
}

impl DeepView for RepositoryId {
    type V = RepositoryId;

    open spec fn deep_view(&self) -> RepositoryId {
        *self
    }
}

impl Identifier for RepositoryId {
    open spec fn number(&self) -> u128 {
        self.0
    }

    fn from_number(number: u128) -> (r: Self)
        ensures
            r == RepositoryId(number),
    {
        RepositoryId(number)
    }
}

impl RepositoryId {
    /// A random identifier.
    #[allow(clippy::new_without_default)]
    pub fn new() -> (r: Self)
        ensures
            marked_random(r.0),
    {
        RepositoryId(random_uuid())
    }

    /// The identifier in the form it is written in.
    pub fn text(&self) -> (r: String)
        ensures
            r@ == uuid_text(self.0),
    {
        display_uuid(self.0)
    }
}

/// Identifies one request, however often it is sent.
#[derive(Clone, Copy, Debug, PartialEq, Eq, PartialOrd, Ord, Hash, Structural)]
pub struct OperationId(pub u128);

impl View for OperationId {
    type V = OperationId;

    open spec fn view(&self) -> OperationId {
        *self
    }
}

impl DeepView for OperationId {
    type V = OperationId;

    open spec fn deep_view(&self) -> OperationId {
        *self
    }
}

impl Identifier for OperationId {
    open spec fn number(&self) -> u128 {
        self.0
    }

    fn from_number(number: u128) -> (r: Self)
        ensures
            r == OperationId(number),
    {
        OperationId(number)
    }
}

impl OperationId {
    /// A random identifier.
    #[allow(clippy::new_without_default)]
    pub fn new() -> (r: Self)
        ensures
            marked_random(r.0),
    {
        OperationId(random_uuid())
    }

    /// The identifier in the form it is written in.
    pub fn text(&self) -> (r: String)
        ensures
            r@ == uuid_text(self.0),
    {
        display_uuid(self.0)
    }
}

/// Identifies a checkpoint.
#[derive(Clone, Copy, Debug, PartialEq, Eq, PartialOrd, Ord, Hash, Structural)]
pub struct CheckpointId(pub u128);

impl View for CheckpointId {
    type V = CheckpointId;

    open spec fn view(&self) -> CheckpointId {
        *self
    }
}

impl DeepView for CheckpointId {
    type V = CheckpointId;

    open spec fn deep_view(&self) -> CheckpointId {
        *self
    }
}

impl Identifier for CheckpointId {
    open spec fn number(&self) -> u128 {
        self.0
    }

    fn from_number(number: u128) -> (r: Self)
        ensures
            r == CheckpointId(number),
    {
        CheckpointId(number)
    }
}

impl CheckpointId {
    /// A random identifier.
    #[allow(clippy::new_without_default)]
    pub fn new() -> (r: Self)
        ensures
            marked_random(r.0),
    {
        CheckpointId(random_uuid())
    }

    /// The identifier in the form it is written in.
    pub fn text(&self) -> (r: String)
        ensures
            r@ == uuid_text(self.0),
    {
        display_uuid(self.0)
    }
}

/// Identifies a fact.
#[derive(Clone, Copy, Debug, PartialEq, Eq, PartialOrd, Ord, Hash, Structural)]
pub struct FactId(pub u128);

impl View for FactId {
    type V = FactId;

    open spec fn view(&self) -> FactId {
        *self
    }
}

impl DeepView for FactId {
    type V = FactId;

    open spec fn deep_view(&self) -> FactId {
        *self
    }
}

impl Identifier for FactId {
    open spec fn number(&self) -> u128 {
        self.0
    }

    fn from_number(number: u128) -> (r: Self)
        ensures
            r == FactId(number),
    {
        FactId(number)
    }
}

impl FactId {
    /// A random identifier.
    #[allow(clippy::new_without_default)]
    pub fn new() -> (r: Self)
        ensures
            marked_random(r.0),
    {
        FactId(random_uuid())
    }

    /// The identifier in the form it is written in.
    pub fn text(&self) -> (r: String)
        ensures
            r@ == uuid_text(self.0),
    {
        display_uuid(self.0)
    }
}

/// Identifies a change.
#[derive(Clone, Copy, Debug, PartialEq, Eq, PartialOrd, Ord, Hash, Structural)]
pub struct ChangeId(pub u128);

impl View for ChangeId {
    type V = ChangeId;

    open spec fn view(&self) -> ChangeId {
        *self
    }
}

impl DeepView for ChangeId {
    type V = ChangeId;

    open spec fn deep_view(&self) -> ChangeId {
        *self
    }
}

impl Identifier for ChangeId {
    open spec fn number(&self) -> u128 {
        self.0
    }

    fn from_number(number: u128) -> (r: Self)
        ensures
            r == ChangeId(number),
    {
        ChangeId(number)
    }
}

impl ChangeId {
    /// A random identifier.
    #[allow(clippy::new_without_default)]
    pub fn new() -> (r: Self)
        ensures
            marked_random(r.0),
    {
        ChangeId(random_uuid())
    }

    /// The identifier in the form it is written in.
    pub fn text(&self) -> (r: String)
        ensures
            r@ == uuid_text(self.0),
    {
        display_uuid(self.0)
    }
}

/// Identifies a dependency.
#[derive(Clone, Copy, Debug, PartialEq, Eq, PartialOrd, Ord, Hash, Structural)]
pub struct DependencyId(pub u128);

impl View for DependencyId {
    type V = DependencyId;

    open spec fn view(&self) -> DependencyId {
        *self
    }
}

impl DeepView for DependencyId {
    type V = DependencyId;

    open spec fn deep_view(&self) -> DependencyId {
        *self
    }
}

impl Identifier for DependencyId {
    open spec fn number(&self) -> u128 {
        self.0
    }

    fn from_number(number: u128) -> (r: Self)
        ensures
            r == DependencyId(number),
    {
        DependencyId(number)
    }
}

impl DependencyId {
    /// A random identifier.
    #[allow(clippy::new_without_default)]
    pub fn new() -> (r: Self)
        ensures
            marked_random(r.0),
    {
        DependencyId(random_uuid())
    }

    /// The identifier in the form it is written in.
    pub fn text(&self) -> (r: String)
        ensures
            r@ == uuid_text(self.0),
    {
        display_uuid(self.0)
    }
}

/// Identifies a task of a plan.
#[derive(Clone, Copy, Debug, PartialEq, Eq, PartialOrd, Ord, Hash, Structural)]
pub struct TaskId(pub u128);

impl View for TaskId {
    type V = TaskId;

    open spec fn view(&self) -> TaskId {
        *self
    }
}

impl DeepView for TaskId {
    type V = TaskId;

    open spec fn deep_view(&self) -> TaskId {
        *self
    }
}

impl Identifier for TaskId {
    open spec fn number(&self) -> u128 {
        self.0
    }

    fn from_number(number: u128) -> (r: Self)
        ensures
            r == TaskId(number),
    {
        TaskId(number)
    }
}

impl TaskId {
    /// A random identifier.
    #[allow(clippy::new_without_default)]
    pub fn new() -> (r: Self)
        ensures
            marked_random(r.0),
    {
        TaskId(random_uuid())
    }

    /// The identifier in the form it is written in.
    pub fn text(&self) -> (r: String)
        ensures
            r@ == uuid_text(self.0),
    {
        display_uuid(self.0)
    }
}

} // verus!
