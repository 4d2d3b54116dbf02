//! The spec-driven process, as rows.
//!
//! The checks that depend on existing rows stand here: whether a slug already names a
//! change in flight, and what rewriting its proposal would strand.

use vstd::prelude::*;

use crate::domain::{
    ProposeCommand, ProposeCommandModel, ProposeResult, ProposeResultModel, Request, RequestModel,
    Response, ResponseModel,
};
use crate::error::{outcome, DomainError, DomainErrorModel, StoreError, StoreErrorModel};
use crate::facts::{FactContext, FactContextModel};
use crate::ids::{ChangeId, WorkspaceId};
use crate::keys::{change_taken, taken, taken_error};
use crate::moment::{clock_text, Moment};
use crate::operations::{executed, is_operation};
use crate::outside::marked_random;
use crate::plan::{is_change, live_status};
use crate::rows::{
    changed, first_index, first_row, is_first, lemma_first, lemma_first_is_first, lemma_no_first,
};
use crate::states::ChangeStatus;
use crate::tables::{
    ChangeRow, ChangeRowModel, DeltaRowModel, ProposalRow, ProposalRowModel, Store, StoreModel,
};
use crate::text::{copy_list, copy_option, copy_text, list_contains, same, same_option};

verus! {

/// Being the change in flight that a slug names in a workspace and namespace. A slug is
/// taken only by a change that has not yet been archived or abandoned.
pub open spec fn is_in_flight(
    workspace: WorkspaceId,
    namespace: Option<Seq<char>>,
    slug: Seq<char>,
) -> spec_fn(ChangeRowModel) -> bool {
    |c: ChangeRowModel|
        c.workspace_id == workspace && c.namespace == namespace && c.slug == slug && live_status(
            c.status,
        )
}

/// Being the proposal of a change.
pub open spec fn is_proposal_of(change: ChangeId) -> spec_fn(ProposalRowModel) -> bool {
    |p: ProposalRowModel| p.change_id == change
}

/// What the proposal of a change declares.
pub open spec fn declared_capabilities(s: StoreModel, change: ChangeId) -> Seq<Seq<char>> {
    match first_row(s.proposals, is_proposal_of(change)) {
        Some(proposal) => proposal.capabilities,
        None => Seq::empty(),
    }
}

/// The capabilities that a change already proposes deltas for and a list does not name,
/// each once.
pub open spec fn stranded(
    deltas: Seq<DeltaRowModel>,
    change: ChangeId,
    capabilities: Seq<Seq<char>>,
) -> Seq<Seq<char>>
    decreases deltas.len(),
{
    if deltas.len() == 0 {
        Seq::empty()
    } else {
        let before = stranded(deltas.drop_last(), change, capabilities);
        let delta = deltas.last();
        if delta.change_id != change || capabilities.contains(delta.capability_path)
            || before.contains(delta.capability_path) {
            before
        } else {
            before.push(delta.capability_path)
        }
    }
}

/// Holding the same texts, in whichever order.
pub open spec fn same_set(a: Seq<Seq<char>>, b: Seq<Seq<char>>) -> bool {
    &&& forall|i: int| 0 <= i < a.len() ==> b.contains(#[trigger] a[i])
    &&& forall|i: int| 0 <= i < b.len() ==> a.contains(#[trigger] b[i])
}

/// Where a rewritten proposal leaves its change. Moving the capability list moves the
/// contract, so that what was specified has to be specified again; the same list in
/// another order, or better wording, invalidates nothing.
pub open spec fn rewritten_status(
    s: StoreModel,
    c: ChangeRowModel,
    capabilities: Seq<Seq<char>>,
) -> ChangeStatus {
    if same_set(declared_capabilities(s, c.id), capabilities) {
        c.status
    } else {
        ChangeStatus::Drafting
    }
}

/// A change under a rewritten proposal.
pub open spec fn restated(
    command: ProposeCommandModel,
    status: ChangeStatus,
    now: Seq<char>,
) -> spec_fn(ChangeRowModel) -> ChangeRowModel {
    |c: ChangeRowModel|
        ChangeRowModel {
            title: command.title,
            classification: command.classification,
            skip_specs: command.skip_specs,
            status,
            updated_at: now,
            ..c
        }
}

/// A rewritten proposal.
pub open spec fn reproposed(command: ProposeCommandModel, now: Seq<char>) -> spec_fn(
    ProposalRowModel,
) -> ProposalRowModel {
    |p: ProposalRowModel|
        ProposalRowModel {
            why: command.why,
            what_changes: command.what_changes,
            capabilities: command.capabilities,
            impact: command.impact,
            updated_at: now,
            ..p
        }
}

/// The store with a change that was just opened, and its proposal.
pub open spec fn with_change(
    s: StoreModel,
    command: ProposeCommandModel,
    workspace: WorkspaceId,
    namespace: Option<Seq<char>>,
    id: ChangeId,
    now: Seq<char>,
) -> StoreModel {
    StoreModel {
        changes: s.changes.push(
            ChangeRowModel {
                id,
                workspace_id: workspace,
                namespace,
                slug: command.slug,
                title: command.title,
                classification: command.classification,
                skip_specs: command.skip_specs,
                status: ChangeStatus::Drafting,
                created_at: now,
                updated_at: now,
            },
        ),
        proposals: s.proposals.push(
            ProposalRowModel {
                change_id: id,
                why: command.why,
                what_changes: command.what_changes,
                capabilities: command.capabilities,
                impact: command.impact,
                created_at: now,
                updated_at: now,
            },
        ),
        ..s
    }
}

/// A change whose proposal may still be rewritten. Past that it has produced a plan, and
/// rewriting it underneath would move the agreement the plan was written against.
pub open spec fn rewritable(status: ChangeStatus) -> bool {
    status == ChangeStatus::Drafting || status == ChangeStatus::Specified
}

/// Opening a change, or rewriting the proposal of one.
pub open spec fn propose_body(
    s: StoreModel,
    command: ProposeCommandModel,
    workspace: WorkspaceId,
    namespace: Option<Seq<char>>,
    id: ChangeId,
    now: Seq<char>,
) -> Result<(ProposeResultModel, StoreModel), StoreErrorModel> {
    match first_row(s.changes, is_in_flight(workspace, namespace, command.slug)) {
        None => if change_taken(s, id) {
            Err(taken("sdd_changes.id"@))
        } else {
            Ok(
                (
                    ProposeResultModel {
                        id,
                        slug: command.slug,
                        status: ChangeStatus::Drafting,
                        rewritten: false,
                    },
                    with_change(s, command, workspace, namespace, id, now),
                ),
            )
        },
        Some(c) => {
            let left = stranded(s.deltas, c.id, command.capabilities);
            if !rewritable(c.status) {
                Err(StoreErrorModel::SlugTaken(command.slug))
            } else if left.len() > 0 {
                Err(StoreErrorModel::CapabilityDeltasStranded(left))
            } else {
                let status = rewritten_status(s, c, command.capabilities);
                Ok(
                    (
                        ProposeResultModel { id: c.id, slug: command.slug, status, rewritten: true },
                        StoreModel {
                            changes: changed(
                                s.changes,
                                is_change(c.id),
                                restated(command, status, now),
                            ),
                            proposals: changed(
                                s.proposals,
                                is_proposal_of(c.id),
                                reproposed(command, now),
                            ),
                            ..s
                        },
                    ),
                )
            }
        },
    }
}

/// The answer to a proposal.
pub open spec fn propose_answer() -> spec_fn(ProposeResultModel) -> ResponseModel {
    |r: ProposeResultModel| ResponseModel::Propose(r)
}

/// The recorded answer to a proposal.
pub open spec fn propose_reading() -> spec_fn(ResponseModel) -> Option<ProposeResultModel> {
    |r: ResponseModel|
        match r {
            ResponseModel::Propose(result) => Some(result),
            _ => None,
        }
}

/// Proposing a change.
pub open spec fn propose_step(
    s: StoreModel,
    command: ProposeCommandModel,
    refusal: Option<DomainErrorModel>,
    context: FactContextModel,
    id: ChangeId,
    now: Seq<char>,
) -> (Result<ProposeResultModel, StoreErrorModel>, StoreModel) {
    match (refusal, context.workspace_id) {
        (Some(error), _) => (Err(StoreErrorModel::Domain(error)), s),
        (None, None) => (Err(StoreErrorModel::NoWorkspace), s),
        (None, Some(workspace)) => executed(
            s,
            command.operation_id,
            RequestModel::Propose(command),
            propose_body(s, command, workspace, context.namespace, id, now),
            propose_answer(),
            propose_reading(),
            now,
        ),
    }
}

fn is_subset(a: &Vec<String>, b: &Vec<String>) -> (r: bool)
    ensures
        r == (forall|i: int|
            0 <= i < a.deep_view().len() ==> b.deep_view().contains(#[trigger] a.deep_view()[i])),
{
    let mut i: usize = 0;
    while i < a.len()
        invariant
            i <= a@.len(),
            forall|j: int| 0 <= j < i ==> b.deep_view().contains(#[trigger] a.deep_view()[j]),
        decreases a@.len() - i,
    {
        assert(a.deep_view()[i as int] == a@[i as int]@);
        if !list_contains(b, a[i].as_str()) {
            return false;
        }
        i += 1;
    }
    true
}

impl Store {
    fn change_in_flight(
        &self,
        workspace: WorkspaceId,
        namespace: &Option<String>,
        slug: &str,
    ) -> (r: Option<usize>)
        ensures
            match r {
                Some(i) => i < self.changes@.len() && first_row(
                    self@.changes,
                    is_in_flight(workspace, namespace.deep_view(), slug@),
                ) == Some(self.changes@[i as int]@),
                None => first_row(
                    self@.changes,
                    is_in_flight(workspace, namespace.deep_view(), slug@),
                ) is None,
            },
    {
        let ghost p = is_in_flight(workspace, namespace.deep_view(), slug@);
        let mut i: usize = 0;
        while i < self.changes.len()
            invariant
                i <= self.changes@.len(),
                p == is_in_flight(workspace, namespace.deep_view(), slug@),
                forall|j: int| 0 <= j < i ==> !p(#[trigger] self@.changes[j]),
            decreases self.changes@.len() - i,
        {
            let row = &self.changes[i];
            assert(self@.changes[i as int] == row@);
            let live = row.status != ChangeStatus::Archived && row.status
                != ChangeStatus::Abandoned;
            if live && row.workspace_id == workspace && same_option(&row.namespace, namespace)
                && same(row.slug.as_str(), slug) {
                proof {
                    assert(is_first(self@.changes, p, i as int));
                    lemma_first(self@.changes, p, i as int);
                }
                return Some(i);
            }
            i += 1;
        }
        proof {
            lemma_no_first(self@.changes, p);
        }
        None
    }

    /// What the proposal of a change declares.
    pub fn proposed_capabilities(&self, change: ChangeId) -> (r: Vec<String>)
        ensures
            r.deep_view() == declared_capabilities(self@, change),
    {
        let ghost p = is_proposal_of(change);
        let mut i: usize = 0;
        while i < self.proposals.len()
            invariant
                i <= self.proposals@.len(),
                p == is_proposal_of(change),
                forall|j: int| 0 <= j < i ==> !p(#[trigger] self@.proposals[j]),
            decreases self.proposals@.len() - i,
        {
            assert(self@.proposals[i as int] == self.proposals@[i as int]@);
            if self.proposals[i].change_id == change {
                proof {
                    assert(is_first(self@.proposals, p, i as int));
                    lemma_first(self@.proposals, p, i as int);
                }
                return copy_list(&self.proposals[i].capabilities);
            }
            i += 1;
        }
        proof {
            lemma_no_first(self@.proposals, p);
        }
        let none: Vec<String> = Vec::new();
        assert(none.deep_view() =~= Seq::<Seq<char>>::empty());
        none
    }

    /// The capabilities that a change already proposes deltas for and a list does not
    /// name.
    pub fn stranded_by(&self, change: ChangeId, capabilities: &Vec<String>) -> (r: Vec<String>)
        ensures
            r.deep_view() == stranded(self@.deltas, change, capabilities.deep_view()),
    {
        let ghost all = self@.deltas;
        let mut r: Vec<String> = Vec::new();
        let mut i: usize = 0;
        assert(r.deep_view() =~= Seq::<Seq<char>>::empty());
        assert(all.take(0) =~= Seq::<DeltaRowModel>::empty());
        while i < self.deltas.len()
            invariant
                i <= self.deltas@.len(),
                all == self@.deltas,
                r.deep_view() == stranded(all.take(i as int), change, capabilities.deep_view()),
            decreases self.deltas@.len() - i,
        {
            let delta = &self.deltas[i];
            assert(all.take(i + 1).drop_last() =~= all.take(i as int));
            assert(all.take(i + 1).last() == delta@);
            let ghost done = r.deep_view();
            if delta.change_id == change && !list_contains(
                capabilities,
                delta.capability_path.as_str(),
            ) && !list_contains(&r, delta.capability_path.as_str()) {
                r.push(copy_text(&delta.capability_path));
                assert(r.deep_view() =~= done.push(delta@.capability_path));
            }
            i += 1;
        }
        assert(all.take(i as int) =~= all);
        r
    }

    fn restate_rows(
        &mut self,
        change: ChangeId,
        command: &ProposeCommand,
        status: ChangeStatus,
        now: &str,
    )
        ensures
            final(self)@ == (StoreModel {
                changes: changed(
                    old(self)@.changes,
                    is_change(change),
                    restated(command@, status, now@),
                ),
                ..old(self)@
            }),
    {
        let ghost before = self@;
        let ghost p = is_change(change);
        let ghost f = restated(command@, status, now@);
        let ghost after = changed(before.changes, p, f);
        let mut i: usize = 0;
        while i < self.changes.len()
            invariant
                i <= self.changes@.len(),
                self.changes@.len() == before.changes.len(),
                p == is_change(change),
                f == restated(command@, status, now@),
                after == changed(before.changes, p, f),
                self@ == (StoreModel { changes: self@.changes, ..before }),
                self@.changes =~= after.take(i as int) + before.changes.skip(i as int),
            decreases self.changes@.len() - i,
        {
            let ghost rows = self@.changes;
            assert(rows[i as int] == before.changes[i as int]);
            if self.changes[i].id == change {
                self.changes[i].title = copy_text(&command.title);
                self.changes[i].classification = command.classification;
                self.changes[i].skip_specs = command.skip_specs;
                self.changes[i].status = status;
                self.changes[i].updated_at = now.to_owned();
            }
            assert(self@.changes[i as int] == after[i as int]);
            assert(self@.changes =~= rows.update(i as int, after[i as int]));
            i += 1;
        }
        assert(self@.changes =~= after);
    }

    fn repropose_rows(&mut self, change: ChangeId, command: &ProposeCommand, now: &str)
        ensures
            final(self)@ == (StoreModel {
                proposals: changed(
                    old(self)@.proposals,
                    is_proposal_of(change),
                    reproposed(command@, now@),
                ),
                ..old(self)@
            }),
    {
        let ghost before = self@;
        let ghost p = is_proposal_of(change);
        let ghost f = reproposed(command@, now@);
        let ghost after = changed(before.proposals, p, f);
        let mut i: usize = 0;
        while i < self.proposals.len()
            invariant
                i <= self.proposals@.len(),
                self.proposals@.len() == before.proposals.len(),
                p == is_proposal_of(change),
                f == reproposed(command@, now@),
                after == changed(before.proposals, p, f),
                self@ == (StoreModel { proposals: self@.proposals, ..before }),
                self@.proposals =~= after.take(i as int) + before.proposals.skip(i as int),
            decreases self.proposals@.len() - i,
        {
            let ghost rows = self@.proposals;
            assert(rows[i as int] == before.proposals[i as int]);
            if self.proposals[i].change_id == change {
                self.proposals[i].why = copy_text(&command.why);
                self.proposals[i].what_changes = copy_list(&command.what_changes);
                self.proposals[i].capabilities = copy_list(&command.capabilities);
                self.proposals[i].impact = copy_option(&command.impact);
                self.proposals[i].updated_at = now.to_owned();
            }
            assert(self@.proposals[i as int] == after[i as int]);
            assert(self@.proposals =~= rows.update(i as int, after[i as int]));
            i += 1;
        }
        assert(self@.proposals =~= after);
    }

    fn open_change(
        &mut self,
        command: &ProposeCommand,
        workspace: WorkspaceId,
        namespace: &Option<String>,
        id: ChangeId,
        now: &str,
    )
        ensures
            final(self)@ == with_change(
                old(self)@,
                command@,
                workspace,
                namespace.deep_view(),
                id,
                now@,
            ),
    {
        let ghost before = self@;
        let change = ChangeRow {
            id,
            workspace_id: workspace,
            namespace: copy_option(namespace),
            slug: copy_text(&command.slug),
            title: copy_text(&command.title),
            classification: command.classification,
            skip_specs: command.skip_specs,
            status: ChangeStatus::Drafting,
            created_at: now.to_owned(),
            updated_at: now.to_owned(),
        };
        let proposal = ProposalRow {
            change_id: id,
            why: copy_text(&command.why),
            what_changes: copy_list(&command.what_changes),
            capabilities: copy_list(&command.capabilities),
            impact: copy_option(&command.impact),
            created_at: now.to_owned(),
            updated_at: now.to_owned(),
        };
        let ghost added_change = change@;
        let ghost added_proposal = proposal@;
        self.changes.push(change);
        self.proposals.push(proposal);
        assert(self@.changes =~= before.changes.push(added_change));
        assert(self@.proposals =~= before.proposals.push(added_proposal));
        assert(self@ =~= with_change(
            before,
            command@,
            workspace,
            namespace.deep_view(),
            id,
            now@,
        ));
    }

    fn write_proposal(
        &mut self,
        command: &ProposeCommand,
        workspace: WorkspaceId,
        namespace: &Option<String>,
        id: ChangeId,
        now: &str,
    ) -> (r: Result<ProposeResult, StoreError>)
        ensures
            match propose_body(
                old(self)@,
                command@,
                workspace,
                namespace.deep_view(),
                id,
                now@,
            ) {
                Ok((result, after)) => outcome(r) == Ok::<ProposeResultModel, StoreErrorModel>(
                    result,
                ) && final(self)@ == after,
                Err(error) => outcome(r) == Err::<ProposeResultModel, StoreErrorModel>(error)
                    && final(self)@ == old(self)@,
            },
    {
        match self.change_in_flight(workspace, namespace, command.slug.as_str()) {
            None => {
                if self.has_change(id) {
                    return Err(taken_error("sdd_changes.id"));
                }
                self.open_change(command, workspace, namespace, id, now);
                Ok(
                    ProposeResult {
                        id,
                        slug: copy_text(&command.slug),
                        status: ChangeStatus::Drafting,
                        rewritten: false,
                    },
                )
            },
            Some(i) => {
                let change = self.changes[i].id;
                let status = self.changes[i].status;
                if status != ChangeStatus::Drafting && status != ChangeStatus::Specified {
                    return Err(StoreError::SlugTaken(copy_text(&command.slug)));
                }
                let left = self.stranded_by(change, &command.capabilities);
                assert(left.deep_view().len() == left@.len());
                if left.len() > 0 {
                    return Err(StoreError::CapabilityDeltasStranded(left));
                }
                let before = self.proposed_capabilities(change);
                let status = if is_subset(&before, &command.capabilities) && is_subset(
                    &command.capabilities,
                    &before,
                ) {
                    status
                } else {
                    ChangeStatus::Drafting
                };
                self.restate_rows(change, command, status, now);
                self.repropose_rows(change, command, now);
                Ok(
                    ProposeResult {
                        id: change,
                        slug: copy_text(&command.slug),
                        status,
                        rewritten: true,
                    },
                )
            },
        }
    }

    /// Opens a change under a given identifier, or rewrites the proposal of the change
    /// its slug names, at a given time.
    pub fn propose_at(
        &mut self,
        command: &ProposeCommand,
        refusal: &Option<DomainError>,
        context: &FactContext,
        id: ChangeId,
        now: &str,
    ) -> (r: Result<ProposeResult, StoreError>)
        ensures
            (outcome(r), final(self)@) == propose_step(
                old(self)@,
                command@,
                refusal.deep_view(),
                context@,
                id,
                now@,
            ),
    {
        if let Some(error) = refusal {
            return Err(StoreError::Domain(error.dup()));
        }
        // What the caller has to fix is the working directory, and only this layer knows
        // that.
        let workspace = match context.workspace_id {
            Some(workspace) => workspace,
            None => {
                return Err(StoreError::NoWorkspace);
            },
        };
        let request = Request::Propose(command.dup());
        match self.lookup_operation(command.operation_id, &request) {
            Err(error) => {
                return Err(error);
            },
            Ok(Some(Response::Propose(result))) => {
                return Ok(result);
            },
            Ok(Some(_)) => {
                return Err(
                    StoreError::Serialization(
                        "the recorded response answers another kind of request".to_owned(),
                    ),
                );
            },
            Ok(None) => {},
        }
        match self.write_proposal(command, workspace, &context.namespace, id, now) {
            Err(error) => Err(error),
            Ok(result) => {
                let response = Response::Propose(result.dup());
                self.record_operation(command.operation_id, request, response, now);
                Ok(result)
            },
        }
    }

    /// Opens a change with its proposal, or rewrites the proposal of the change that the
    /// slug already names. `refusal` says why the command is no valid one, if it is not.
    pub fn propose(
        &mut self,
        command: &ProposeCommand,
        refusal: &Option<DomainError>,
        context: &FactContext,
    ) -> (r: Result<ProposeResult, StoreError>)
        ensures
            exists|id: ChangeId, now: Seq<char>|
                marked_random(id.0) && clock_text(now) && (outcome(r), final(self)@)
                    == #[trigger] propose_step(
                    old(self)@,
                    command@,
                    refusal.deep_view(),
                    context@,
                    id,
                    now,
                ),
    {
        let id = ChangeId::new();
        let now = Moment::now().text();
        self.propose_at(command, refusal, context, id, now.as_str())
    }
}

// --- laws ------------------------------------------------------------------

/// A proposal that is rewritten stays the same change: its identifier comes back, no change
/// and no proposal is added, and the change says what the command says.
pub proof fn law_rewriting_a_proposal_keeps_the_change(
    s: StoreModel,
    command: ProposeCommandModel,
    workspace: WorkspaceId,
    namespace: Option<Seq<char>>,
    id: ChangeId,
    now: Seq<char>,
)
    requires
        s.well_formed(),
        first_row(s.changes, is_in_flight(workspace, namespace, command.slug)) is Some,
        propose_body(s, command, workspace, namespace, id, now) is Ok,
    ensures
        ({
            let c = first_row(s.changes, is_in_flight(workspace, namespace, command.slug))->0;
            let (result, after) = propose_body(s, command, workspace, namespace, id, now)->Ok_0;
            let stated = first_row(
                after.changes,
                is_in_flight(workspace, namespace, command.slug),
            );
            &&& result.rewritten
            &&& result.id == c.id
            &&& after.changes.len() == s.changes.len()
            &&& after.proposals.len() == s.proposals.len()
            &&& stated is Some
            &&& stated->0.id == c.id
            &&& stated->0.title == command.title
            &&& stated->0.created_at == c.created_at
            &&& stated->0.status == result.status
        }),
{
    let p = is_in_flight(workspace, namespace, command.slug);
    lemma_first_is_first(s.changes, p);
    let k = first_index(s.changes, p)->0;
    let after = propose_body(s, command, workspace, namespace, id, now)->Ok_0.1;
    assert(is_first(after.changes, p, k)) by {
        assert(p(after.changes[k]));
        assert forall|j: int| 0 <= j < k implies !p(#[trigger] after.changes[j]) by {
            assert(!p(s.changes[j]));
            assert(s.changes[j].id != s.changes[k].id);
        }
    }
    lemma_first(after.changes, p, k);
}

/// Naming the same capabilities, in whichever order, leaves a change where it stands; naming
/// others sends it back to be specified again.
pub proof fn law_only_other_capabilities_reopen_a_change(
    s: StoreModel,
    command: ProposeCommandModel,
    workspace: WorkspaceId,
    namespace: Option<Seq<char>>,
    id: ChangeId,
    now: Seq<char>,
)
    requires
        first_row(s.changes, is_in_flight(workspace, namespace, command.slug)) is Some,
        propose_body(s, command, workspace, namespace, id, now) is Ok,
    ensures
        ({
            let c = first_row(s.changes, is_in_flight(workspace, namespace, command.slug))->0;
            let result = propose_body(s, command, workspace, namespace, id, now)->Ok_0.0;
            if same_set(declared_capabilities(s, c.id), command.capabilities) {
                result.status == c.status
            } else {
                result.status == ChangeStatus::Drafting
            }
        }),
{
}

/// A rewrite never leaves a delta behind whose capability the proposal no longer names.
pub proof fn law_no_delta_is_stranded(
    s: StoreModel,
    command: ProposeCommandModel,
    workspace: WorkspaceId,
    namespace: Option<Seq<char>>,
    id: ChangeId,
    now: Seq<char>,
)
    requires
        first_row(s.changes, is_in_flight(workspace, namespace, command.slug)) is Some,
        propose_body(s, command, workspace, namespace, id, now) is Ok,
    ensures
        ({
            let (result, after) = propose_body(s, command, workspace, namespace, id, now)->Ok_0;
            forall|i: int|
                0 <= i < after.deltas.len() && (#[trigger] after.deltas[i]).change_id == result.id
                    ==> command.capabilities.contains(after.deltas[i].capability_path)
        }),
{
    let c = first_row(s.changes, is_in_flight(workspace, namespace, command.slug))->0;
    lemma_nothing_stranded(s.deltas, c.id, command.capabilities);
}

proof fn lemma_nothing_stranded(
    deltas: Seq<DeltaRowModel>,
    change: ChangeId,
    capabilities: Seq<Seq<char>>,
)
    requires
        stranded(deltas, change, capabilities).len() == 0,
    ensures
        forall|i: int|
            0 <= i < deltas.len() && (#[trigger] deltas[i]).change_id == change
                ==> capabilities.contains(deltas[i].capability_path),
    decreases deltas.len(),
{
    if deltas.len() > 0 {
        lemma_nothing_stranded(deltas.drop_last(), change, capabilities);
        assert forall|i: int|
            0 <= i < deltas.len() && (#[trigger] deltas[i]).change_id == change implies
            capabilities.contains(deltas[i].capability_path) by {
            if i < deltas.len() - 1 {
                assert(deltas.drop_last()[i] == deltas[i]);
            }
        }
    }
}

/// A slug whose change was archived or abandoned is free again: the next proposal opens a
/// change of its own, and the one before it stays as it was.
pub proof fn law_a_settled_slug_is_free_again(
    s: StoreModel,
    command: ProposeCommandModel,
    workspace: WorkspaceId,
    namespace: Option<Seq<char>>,
    id: ChangeId,
    now: Seq<char>,
)
    requires
        forall|i: int|
            0 <= i < s.changes.len() && (#[trigger] s.changes[i]).slug == command.slug
                ==> !live_status(s.changes[i].status),
        !change_taken(s, id),
    ensures
        propose_body(s, command, workspace, namespace, id, now) is Ok,
        ({
            let (result, after) = propose_body(s, command, workspace, namespace, id, now)->Ok_0;
            &&& !result.rewritten
            &&& result.id == id
            &&& after.changes.len() == s.changes.len() + 1
            &&& after.changes.last().id == id
            &&& after.changes.drop_last() == s.changes
        }),
{
    let p = is_in_flight(workspace, namespace, command.slug);
    lemma_no_first(s.changes, p);
    assert(propose_body(s, command, workspace, namespace, id, now)->Ok_0.1.changes.drop_last()
        =~= s.changes);
}

/// A change past its proposal keeps its slug, and proposing it again writes nothing.
pub proof fn law_a_change_with_a_plan_is_not_rewritten(
    s: StoreModel,
    command: ProposeCommandModel,
    context: FactContextModel,
    id: ChangeId,
    now: Seq<char>,
)
    requires
        context.workspace_id is Some,
        first_row(s.operations, is_operation(command.operation_id)) is None,
        first_row(
            s.changes,
            is_in_flight(context.workspace_id->0, context.namespace, command.slug),
        ) is Some,
        !rewritable(
            first_row(
                s.changes,
                is_in_flight(context.workspace_id->0, context.namespace, command.slug),
            )->0.status,
        ),
    ensures
        propose_step(s, command, None, context, id, now) == (
            Err::<ProposeResultModel, _>(StoreErrorModel::SlugTaken(command.slug)),
            s,
        ),
{
}

} // verus!
