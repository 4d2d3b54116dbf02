//! Curating memory by hand.
//!
//! Everything else writes memory automatically. This is the half a person does:
//! confirming what is true, withdrawing what is not, correcting wording, and merging
//! the near-duplicates that automation inevitably produces.
//!
//! Nothing here destroys anything. A withdrawal is reversible, a correction
//! supersedes rather than overwrites, and a merge leaves a relation pointing at what
//! was folded in.

use vstd::prelude::*;

use crate::domain::{Evidence, EvidenceModel, Fact, FactModel};
use crate::error::{outcome, DomainError, DomainErrorModel, StoreError, StoreErrorModel};
use crate::facts::{evidence_rows, superseded};
use crate::ids::{FactId, RunId, WorkspaceId};
use crate::jobs::in_status;
use crate::keys::{dangling, dangling_error, fact_taken, taken, taken_error};
use crate::ledger::at_most;
use crate::moment::{clock_text, Moment};
use crate::order::{
    arrange, arranged, number_place, place_of_number, row_numbers, Arrangement, KeyModel, SortKey,
};
use crate::outside::{marked_random, uuid_text};
use crate::plan::ascending;
use crate::retrieval::{fact_of, facts_of, live_rows, namespaces_of, retrievable, written_keys};
use crate::rows::{
    changed, first_row, is_first, lemma_first, lemma_no_first, lemma_tally_step, tally,
};
use crate::sessions::{newest_first, touched_keys};
use crate::states::{
    Cardinality, FactKind, FactScope, FactStatus, JobStatus, RelationKind, RunStatus, WireName,
    WorkflowStage,
};
use crate::tables::{
    FactRow, FactRowModel, JobRowModel, RelationRow, RelationRowModel, RunRecordModel, Store,
    StoreModel, WorkspaceRowModel,
};
use crate::text::{
    characters, concat2, concat3, contains, copy_option, copy_text, is_letter_or_digit,
    letter_or_digit, list_contains, lower, lowered, occurs_in, pieces, same, same_option,
    split_marked,
};

verus! {

/// How far a confirmed fact is trusted: the bits of nineteen twentieths. A person
/// confirming something is better evidence than a model asserting it, and still not
/// certainty.
pub const VERIFIED_CONFIDENCE: u64 = 4606732058837280358;

/// What a console shows at a glance.
#[derive(Clone, Copy, Debug, PartialEq, Eq, Structural)]
pub struct Overview {
    /// Facts currently retrievable.
    pub facts: usize,
    pub revoked: usize,
    pub superseded: usize,
    pub namespaces: usize,
    pub runs_open: usize,
    pub runs_completed: usize,
    pub repositories: usize,
    pub workspaces: usize,
    /// Background work still owed.
    pub jobs_pending: usize,
    pub jobs_failed: usize,
}

impl Default for Overview {
    fn default() -> (r: Self)
        ensures
            r == (Overview {
                facts: 0,
                revoked: 0,
                superseded: 0,
                namespaces: 0,
                runs_open: 0,
                runs_completed: 0,
                repositories: 0,
                workspaces: 0,
                jobs_pending: 0,
                jobs_failed: 0,
            }),
    {
        Overview {
            facts: 0,
            revoked: 0,
            superseded: 0,
            namespaces: 0,
            runs_open: 0,
            runs_completed: 0,
            repositories: 0,
            workspaces: 0,
            jobs_pending: 0,
            jobs_failed: 0,
        }
    }
}

/// Which facts to list.
/// 
/// Browsing is not searching: someone opening a console wants to see what is there,
/// narrowed, rather than guess a query that reveals it.
#[derive(Debug, PartialEq, Eq)]
pub struct FactFilter {
    pub namespace: Option<String>,
    pub scope: Option<FactScope>,
    pub kind: Option<FactKind>,
    /// `None` lists everything currently retrievable; a status lists exactly that
    /// status, including the withdrawn ones retrieval hides.
    pub status: Option<FactStatus>,
    /// What the name, the title or the body has to hold.
    pub text: Option<String>,
    pub limit: Option<usize>,
}

/// The contents of a [`FactFilter`].
#[verifier::ext_equal]
pub struct FactFilterModel {
    pub namespace: Option<Seq<char>>,
    pub scope: Option<FactScope>,
    pub kind: Option<FactKind>,
    pub status: Option<FactStatus>,
    pub text: Option<Seq<char>>,
    pub limit: Option<usize>,
}

impl View for FactFilter {
    type V = FactFilterModel;

    open spec fn view(&self) -> FactFilterModel {
        FactFilterModel {
            namespace: self.namespace.deep_view(),
            scope: self.scope,
            kind: self.kind,
            status: self.status,
            text: self.text.deep_view(),
            limit: self.limit,
        }
    }
}

impl DeepView for FactFilter {
    type V = FactFilterModel;

    open spec fn deep_view(&self) -> FactFilterModel {
        self@
    }
}

impl Default for FactFilter {
    fn default() -> (r: Self)
        ensures
            r@ == (FactFilterModel {
                namespace: None,
                scope: None,
                kind: None,
                status: None,
                text: None,
                limit: None,
            }),
    {
        FactFilter {
            namespace: None,
            scope: None,
            kind: None,
            status: None,
            text: None,
            limit: None,
        }
    }
}

/// A run as the console lists it.
#[derive(Debug, PartialEq, Eq)]
pub struct RunRow {
    pub run_id: RunId,
    pub task: String,
    pub stage: String,
    pub status: String,
    pub updated_at: String,
}

/// The contents of a [`RunRow`].
#[verifier::ext_equal]
pub struct RunRowModel {
    pub run_id: RunId,
    pub task: Seq<char>,
    pub stage: Seq<char>,
    pub status: Seq<char>,
    pub updated_at: Seq<char>,
}

impl View for RunRow {
    type V = RunRowModel;

    open spec fn view(&self) -> RunRowModel {
        RunRowModel {
            run_id: self.run_id,
            task: self.task@,
            stage: self.stage@,
            status: self.status@,
            updated_at: self.updated_at@,
        }
    }
}

impl DeepView for RunRow {
    type V = RunRowModel;

    open spec fn deep_view(&self) -> RunRowModel {
        self@
    }
}

// --- reading ---------------------------------------------------------------

/// Being the fact `id`.
pub open spec fn is_fact(id: FactId) -> spec_fn(FactRowModel) -> bool {
    |f: FactRowModel| f.id == id
}

/// One fact, whatever its status.
pub open spec fn opened(s: StoreModel, id: FactId) -> Result<Option<FactModel>, StoreErrorModel> {
    match first_row(s.facts, is_fact(id)) {
        None => Ok(None),
        Some(f) => match fact_of(s, f) {
            Err(error) => Err(error),
            Ok(fact) => Ok(Some(fact)),
        },
    }
}

/// Matching a filter.
pub open spec fn listed(f: FactRowModel, filter: FactFilterModel) -> bool {
    &&& filter.namespace is Some ==> f.namespace == filter.namespace
    &&& filter.scope matches Some(scope) ==> f.scope == scope
    &&& filter.kind matches Some(kind) ==> f.kind == kind
    &&& match filter.status {
        Some(status) => f.status == status,
        None => retrievable(f),
    }
    &&& filter.text matches Some(text) ==> {
        occurs_in(text, f.name) || occurs_in(text, f.title) || occurs_in(text, f.body)
    }
}

/// The facts that match a filter.
pub open spec fn listed_marks(facts: Seq<FactRowModel>, filter: FactFilterModel) -> Seq<bool> {
    Seq::new(facts.len(), |i: int| listed(facts[i], filter))
}

/// The facts a filter lists, by their rows: newest first.
pub open spec fn browsed_rows(s: StoreModel, filter: FactFilterModel) -> Seq<int> {
    let all = arranged(written_keys(s.facts), listed_marks(s.facts, filter), newest_first());
    match filter.limit {
        Some(limit) => at_most(all, limit as nat),
        None => all,
    }
}

/// Being currently retrievable.
pub open spec fn is_retrievable() -> spec_fn(FactRowModel) -> bool {
    |f: FactRowModel| retrievable(f)
}

/// Being withdrawn.
pub open spec fn is_revoked() -> spec_fn(FactRowModel) -> bool {
    |f: FactRowModel| f.status == FactStatus::Revoked
}

/// Having been superseded.
pub open spec fn is_superseded() -> spec_fn(FactRowModel) -> bool {
    |f: FactRowModel| f.superseded_by is Some
}

/// Being in a state.
pub open spec fn run_in(status: RunStatus) -> spec_fn(RunRecordModel) -> bool {
    |r: RunRecordModel| r.status == status
}

/// Having been named by somebody.
pub open spec fn is_explicit() -> spec_fn(WorkspaceRowModel) -> bool {
    |w: WorkspaceRowModel| w.explicit
}

/// Work that has not come to an end.
pub open spec fn is_owed() -> spec_fn(JobRowModel) -> bool {
    |j: JobRowModel| j.status == JobStatus::Pending || j.status == JobStatus::Running
}

impl Store {
    fn fact_at(&self, id: FactId) -> (r: Option<usize>)
        ensures
            match r {
                Some(i) => {
                    &&& i < self.facts@.len()
                    &&& first_row(self@.facts, is_fact(id)) == Some(self@.facts[i as int])
                    &&& self@.facts[i as int].id == id
                },
                None => first_row(self@.facts, is_fact(id)) is None,
            },
    {
        let ghost p = is_fact(id);
        let mut i: usize = 0;
        while i < self.facts.len()
            invariant
                i <= self.facts@.len(),
                p == is_fact(id),
                forall|j: int| 0 <= j < i ==> !p(#[trigger] self@.facts[j]),
            decreases self.facts@.len() - i,
        {
            if self.facts[i].id == id {
                proof {
                    assert(is_first(self@.facts, p, i as int));
                    lemma_first(self@.facts, p, i as int);
                }
                return Some(i);
            }
            i += 1;
        }
        proof {
            lemma_no_first(self@.facts, p);
        }
        None
    }

    /// One fact, whatever its status.
    ///
    /// Unlike retrieval, this shows withdrawn and superseded facts: a console that
    /// could not open what it had just withdrawn would be useless.
    pub fn fact(&self, id: FactId) -> (r: Result<Option<Fact>, StoreError>)
        ensures
            outcome(r) == opened(self@, id),
    {
        match self.fact_at(id) {
            None => Ok(None),
            Some(i) => match self.build_fact(i) {
                Ok(fact) => Ok(Some(fact)),
                Err(error) => Err(error),
            },
        }
    }

    fn is_listed(&self, i: usize, filter: &FactFilter) -> (r: bool)
        requires
            i < self.facts@.len(),
        ensures
            r == listed(self@.facts[i as int], filter@),
    {
        let f = &self.facts[i];
        assert(self@.facts[i as int] == f@);
        if filter.namespace.is_some() && !same_option(&f.namespace, &filter.namespace) {
            return false;
        }
        if let Some(scope) = filter.scope {
            if f.scope != scope {
                return false;
            }
        }
        if let Some(kind) = filter.kind {
            if f.kind != kind {
                return false;
            }
        }
        let state_fits = match filter.status {
            Some(status) => f.status == status,
            None => f.superseded_by.is_none() && f.status != FactStatus::Revoked,
        };
        if !state_fits {
            return false;
        }
        match &filter.text {
            None => true,
            Some(text) => contains(f.name.as_str(), text.as_str()) || contains(
                f.title.as_str(),
                text.as_str(),
            ) || contains(f.body.as_str(), text.as_str()),
        }
    }

    /// Facts matching `filter`, newest first.
    pub fn browse_facts(&self, filter: &FactFilter) -> (r: Result<Vec<Fact>, StoreError>)
        ensures
            outcome(r) == facts_of(self@, browsed_rows(self@, filter@)),
    {
        let ghost all_keys = written_keys(self@.facts);
        let ghost all_marks = listed_marks(self@.facts, filter@);
        let mut keys: Vec<SortKey> = Vec::new();
        let mut selected: Vec<bool> = Vec::new();
        let mut i: usize = 0;
        while i < self.facts.len()
            invariant
                i <= self.facts@.len(),
                all_keys == written_keys(self@.facts),
                all_marks == listed_marks(self@.facts, filter@),
                keys.deep_view() =~= all_keys.take(i as int),
                selected@ =~= all_marks.take(i as int),
            decreases self.facts@.len() - i,
        {
            let key = SortKey {
                rank: 0,
                weight: 0,
                text: copy_text(&self.facts[i].created_at),
            };
            assert(key@ == all_keys[i as int]);
            let ghost done = keys.deep_view();
            keys.push(key);
            assert(keys.deep_view() =~= done.push(all_keys[i as int]));
            selected.push(self.is_listed(i, filter));
            i += 1;
        }
        assert(all_keys.take(i as int) =~= all_keys);
        assert(all_marks.take(i as int) =~= all_marks);
        let mut order = arrange(
            &keys,
            &selected,
            Arrangement { text_descending: true, newest_row_first: true },
        );
        let ghost all = row_numbers(order@);
        if let Some(limit) = filter.limit {
            if order.len() > limit {
                order.truncate(limit);
            }
            assert(row_numbers(order@) =~= at_most(all, limit as nat));
        }
        self.build_facts(&order)
    }

    /// The counts a console leads with.
    ///
    /// Read from the same tables retrieval uses, so what is shown cannot drift from
    /// what an agent actually sees.
    pub fn overview(&self) -> (r: Overview)
        ensures
            r.facts == tally(self@.facts, is_retrievable()),
            r.revoked == tally(self@.facts, is_revoked()),
            r.superseded == tally(self@.facts, is_superseded()),
            r.namespaces == namespaces_of(self@.facts).len(),
            r.runs_open == tally(self@.runs, run_in(RunStatus::Open)),
            r.runs_completed == tally(self@.runs, run_in(RunStatus::Completed)),
            r.repositories == self@.repositories.len(),
            r.workspaces == tally(self@.workspaces, is_explicit()),
            r.jobs_pending == tally(self@.jobs, is_owed()),
            r.jobs_failed == tally(self@.jobs, in_status(JobStatus::Failed)),
    {
        let (facts, revoked, superseded) = self.count_facts();
        let (runs_open, runs_completed) = self.count_runs();
        let known = self.known_namespaces();
        assert(known.deep_view().len() == known@.len());
        Overview {
            facts,
            revoked,
            superseded,
            namespaces: known.len(),
            runs_open,
            runs_completed,
            repositories: self.repositories.len(),
            workspaces: self.count_explicit(),
            jobs_pending: self.count_owed(),
            jobs_failed: self.count_jobs(JobStatus::Failed),
        }
    }

    fn count_facts(&self) -> (r: (usize, usize, usize))
        ensures
            r.0 == tally(self@.facts, is_retrievable()),
            r.1 == tally(self@.facts, is_revoked()),
            r.2 == tally(self@.facts, is_superseded()),
    {
        let ghost p = is_retrievable();
        let ghost q = is_revoked();
        let ghost w = is_superseded();
        let mut facts: usize = 0;
        let mut revoked: usize = 0;
        let mut superseded: usize = 0;
        let mut i: usize = 0;
        while i < self.facts.len()
            invariant
                i <= self.facts@.len(),
                p == is_retrievable(),
                q == is_revoked(),
                w == is_superseded(),
                facts <= i,
                revoked <= i,
                superseded <= i,
                facts == tally(self@.facts.take(i as int), p),
                revoked == tally(self@.facts.take(i as int), q),
                superseded == tally(self@.facts.take(i as int), w),
            decreases self.facts@.len() - i,
        {
            proof {
                lemma_tally_step(self@.facts, p, i as int);
                lemma_tally_step(self@.facts, q, i as int);
                lemma_tally_step(self@.facts, w, i as int);
            }
            assert(self@.facts[i as int] == self.facts@[i as int]@);
            let replaced = self.facts[i].superseded_by.is_some();
            let withdrawn = self.facts[i].status == FactStatus::Revoked;
            if !replaced && !withdrawn {
                facts += 1;
            }
            if withdrawn {
                revoked += 1;
            }
            if replaced {
                superseded += 1;
            }
            i += 1;
        }
        assert(self@.facts.take(i as int) =~= self@.facts);
        (facts, revoked, superseded)
    }

    fn count_runs(&self) -> (r: (usize, usize))
        ensures
            r.0 == tally(self@.runs, run_in(RunStatus::Open)),
            r.1 == tally(self@.runs, run_in(RunStatus::Completed)),
    {
        let ghost p = run_in(RunStatus::Open);
        let ghost q = run_in(RunStatus::Completed);
        let mut open: usize = 0;
        let mut completed: usize = 0;
        let mut i: usize = 0;
        while i < self.runs.len()
            invariant
                i <= self.runs@.len(),
                p == run_in(RunStatus::Open),
                q == run_in(RunStatus::Completed),
                open <= i,
                completed <= i,
                open == tally(self@.runs.take(i as int), p),
                completed == tally(self@.runs.take(i as int), q),
            decreases self.runs@.len() - i,
        {
            proof {
                lemma_tally_step(self@.runs, p, i as int);
                lemma_tally_step(self@.runs, q, i as int);
            }
            assert(self@.runs[i as int] == self.runs@[i as int]@);
            if self.runs[i].status == RunStatus::Open {
                open += 1;
            }
            if self.runs[i].status == RunStatus::Completed {
                completed += 1;
            }
            i += 1;
        }
        assert(self@.runs.take(i as int) =~= self@.runs);
        (open, completed)
    }

    fn count_explicit(&self) -> (r: usize)
        ensures
            r == tally(self@.workspaces, is_explicit()),
    {
        let ghost p = is_explicit();
        let mut count: usize = 0;
        let mut i: usize = 0;
        while i < self.workspaces.len()
            invariant
                i <= self.workspaces@.len(),
                p == is_explicit(),
                count <= i,
                count == tally(self@.workspaces.take(i as int), p),
            decreases self.workspaces@.len() - i,
        {
            proof {
                lemma_tally_step(self@.workspaces, p, i as int);
            }
            assert(self@.workspaces[i as int] == self.workspaces@[i as int]@);
            if self.workspaces[i].explicit {
                count += 1;
            }
            i += 1;
        }
        assert(self@.workspaces.take(i as int) =~= self@.workspaces);
        count
    }

    fn count_owed(&self) -> (r: usize)
        ensures
            r == tally(self@.jobs, is_owed()),
    {
        let ghost p = is_owed();
        let mut count: usize = 0;
        let mut i: usize = 0;
        while i < self.jobs.len()
            invariant
                i <= self.jobs@.len(),
                p == is_owed(),
                count <= i,
                count == tally(self@.jobs.take(i as int), p),
            decreases self.jobs@.len() - i,
        {
            proof {
                lemma_tally_step(self@.jobs, p, i as int);
            }
            assert(self@.jobs[i as int] == self.jobs@[i as int]@);
            if self.jobs[i].status == JobStatus::Pending || self.jobs[i].status
                == JobStatus::Running {
                count += 1;
            }
            i += 1;
        }
        assert(self@.jobs.take(i as int) =~= self@.jobs);
        count
    }
}

// --- confirming, withdrawing and correcting --------------------------------

/// A fact that was confirmed.
pub open spec fn confirmed(now: Seq<char>) -> spec_fn(FactRowModel) -> FactRowModel {
    |f: FactRowModel|
        FactRowModel {
            status: FactStatus::Verified,
            confidence: if place_of_number(f.confidence) < place_of_number(
                VERIFIED_CONFIDENCE,
            ) {
                VERIFIED_CONFIDENCE
            } else {
                f.confidence
            },
            updated_at: now,
            ..f
        }
}

/// A fact that was withdrawn. The reason goes in the body: it is the part someone
/// reads when they find the fact later and wonder. A fact that was withdrawn before
/// keeps the reason it has.
pub open spec fn withdrawn(reason: Seq<char>, now: Seq<char>) -> spec_fn(
    FactRowModel,
) -> FactRowModel {
    |f: FactRowModel|
        if f.status == FactStatus::Revoked {
            f
        } else {
            FactRowModel {
                status: FactStatus::Revoked,
                body: f.body + "\n\nWithdrawn: "@ + reason,
                updated_at: now,
                ..f
            }
        }
}

/// A fact with another status.
pub open spec fn in_state(status: FactStatus, now: Seq<char>) -> spec_fn(
    FactRowModel,
) -> FactRowModel {
    |f: FactRowModel| FactRowModel { status, updated_at: now, ..f }
}

/// A fact in another scope.
pub open spec fn rescoped(
    scope: FactScope,
    workspace_id: Option<WorkspaceId>,
    now: Seq<char>,
) -> spec_fn(FactRowModel) -> FactRowModel {
    |f: FactRowModel| FactRowModel { scope, workspace_id, updated_at: now, ..f }
}

/// A fact with another cardinality.
pub open spec fn recounted(cardinality: Cardinality, now: Seq<char>) -> spec_fn(
    FactRowModel,
) -> FactRowModel {
    |f: FactRowModel| FactRowModel { cardinality, updated_at: now, ..f }
}

/// The store with one fact changed.
pub open spec fn with_changed_fact(
    s: StoreModel,
    id: FactId,
    f: spec_fn(FactRowModel) -> FactRowModel,
) -> StoreModel {
    StoreModel { facts: changed(s.facts, is_fact(id), f), ..s }
}

/// A change to one fact.
enum FactEdit<'a> {
    Confirmed,
    Withdrawn(&'a str),
    InState(FactStatus),
    Rescoped(FactScope, Option<WorkspaceId>),
    Recounted(Cardinality),
    SupersededBy(FactId),
}

spec fn edit_of(edit: FactEdit, now: Seq<char>) -> spec_fn(FactRowModel) -> FactRowModel {
    match edit {
        FactEdit::Confirmed => confirmed(now),
        FactEdit::Withdrawn(reason) => withdrawn(reason@, now),
        FactEdit::InState(status) => in_state(status, now),
        FactEdit::Rescoped(scope, workspace_id) => rescoped(scope, workspace_id, now),
        FactEdit::Recounted(cardinality) => recounted(cardinality, now),
        FactEdit::SupersededBy(by) => superseded(by, now),
    }
}

/// Confirming a fact.
pub open spec fn verify_step(
    s: StoreModel,
    id: FactId,
    evidence: Seq<EvidenceModel>,
    now: Seq<char>,
) -> (Result<(), StoreErrorModel>, StoreModel) {
    if evidence.len() == 0 {
        (Err(StoreErrorModel::Domain(DomainErrorModel::VerifiedWithoutEvidence)), s)
    } else {
        (
            Ok(()),
            with_changed_fact(
                StoreModel { evidence: s.evidence + evidence_rows(id, evidence, now), ..s },
                id,
                confirmed(now),
            ),
        )
    }
}

/// A fact reworded: a new version of it, written by hand.
pub open spec fn reworded(
    f: FactRowModel,
    replacement: FactId,
    title: Seq<char>,
    body: Seq<char>,
    now: Seq<char>,
) -> FactRowModel {
    FactRowModel {
        id: replacement,
        title,
        body,
        provenance: "curated"@,
        superseded_by: None,
        created_at: now,
        updated_at: now,
        ..f
    }
}

/// The refusal of a fact that is not there.
pub open spec fn no_fact(id: FactId) -> StoreErrorModel {
    StoreErrorModel::Serialization("no fact "@ + uuid_text(id.0))
}

/// Rewording a fact.
pub open spec fn edit_step(
    s: StoreModel,
    id: FactId,
    title: Seq<char>,
    body: Seq<char>,
    replacement: FactId,
    now: Seq<char>,
) -> (Result<FactId, StoreErrorModel>, StoreModel) {
    match first_row(s.facts, is_fact(id)) {
        None => (Err(no_fact(id)), s),
        Some(f) => match fact_of(s, f) {
            Err(error) => (Err(error), s),
            Ok(_) => if fact_taken(s, replacement) {
                (Err(taken("facts.id"@)), s)
            } else {
                (
                    Ok(replacement),
                    with_changed_fact(
                        StoreModel {
                            facts: s.facts.push(reworded(f, replacement, title, body, now)),
                            ..s
                        },
                        id,
                        superseded(replacement, now),
                    ),
                )
            },
        },
    }
}

/// Folding one fact into another. What takes a fact's place has to be there.
pub open spec fn merge_step(s: StoreModel, keep: FactId, duplicate: FactId, now: Seq<char>) -> (
    Result<(), StoreErrorModel>,
    StoreModel,
) {
    if keep == duplicate {
        (Err(StoreErrorModel::Serialization("a fact cannot be merged into itself"@)), s)
    } else {
        match first_row(s.facts, is_fact(duplicate)) {
            None => (Ok(()), s),
            Some(f) => if !fact_taken(s, keep) {
                (Err(dangling()), s)
            } else {
                let replaced = with_changed_fact(s, duplicate, superseded(keep, now));
                (
                    Ok(()),
                    StoreModel {
                        relations: s.relations.push(
                            RelationRowModel {
                                from_fact_id: keep,
                                to_name: f.name,
                                predicate: RelationKind::Supersedes,
                                created_at: now,
                            },
                        ),
                        ..replaced
                    },
                )
            },
        }
    }
}

impl Store {
    fn edit_rows(&mut self, id: FactId, edit: FactEdit<'_>, now: &str)
        ensures
            final(self)@ == with_changed_fact(old(self)@, id, edit_of(edit, now@)),
    {
        let ghost before = self@;
        let ghost p = is_fact(id);
        let ghost f = edit_of(edit, now@);
        let ghost after = changed(before.facts, p, f);
        let mut i: usize = 0;
        while i < self.facts.len()
            invariant
                i <= self.facts@.len(),
                self.facts@.len() == before.facts.len(),
                p == is_fact(id),
                f == edit_of(edit, now@),
                after == changed(before.facts, p, f),
                self@ == (StoreModel { facts: self@.facts, ..before }),
                self@.facts =~= after.take(i as int) + before.facts.skip(i as int),
            decreases self.facts@.len() - i,
        {
            let ghost rows = self@.facts;
            assert(rows[i as int] == before.facts[i as int]);
            if self.facts[i].id == id {
                match &edit {
                    FactEdit::Confirmed => {
                        self.facts[i].status = FactStatus::Verified;
                        if number_place(self.facts[i].confidence) < number_place(
                            VERIFIED_CONFIDENCE,
                        ) {
                            self.facts[i].confidence = VERIFIED_CONFIDENCE;
                        }
                        self.facts[i].updated_at = now.to_owned();
                    },
                    FactEdit::Withdrawn(reason) => {
                        if self.facts[i].status != FactStatus::Revoked {
                            let body = concat3(
                                self.facts[i].body.as_str(),
                                "\n\nWithdrawn: ",
                                *reason,
                            );
                            self.facts[i].status = FactStatus::Revoked;
                            self.facts[i].body = body;
                            self.facts[i].updated_at = now.to_owned();
                        }
                    },
                    FactEdit::InState(status) => {
                        self.facts[i].status = *status;
                        self.facts[i].updated_at = now.to_owned();
                    },
                    FactEdit::Rescoped(scope, workspace_id) => {
                        self.facts[i].scope = *scope;
                        self.facts[i].workspace_id = *workspace_id;
                        self.facts[i].updated_at = now.to_owned();
                    },
                    FactEdit::Recounted(cardinality) => {
                        self.facts[i].cardinality = *cardinality;
                        self.facts[i].updated_at = now.to_owned();
                    },
                    FactEdit::SupersededBy(by) => {
                        self.facts[i].superseded_by = Some(*by);
                        self.facts[i].updated_at = now.to_owned();
                    },
                }
            }
            assert(self@.facts[i as int] == after[i as int]);
            assert(self@.facts =~= rows.update(i as int, after[i as int]));
            i += 1;
        }
        assert(self@.facts =~= after);
    }

    /// Marks a fact confirmed, attaching what confirms it, at a given time.
    pub fn verify_fact_at(&mut self, id: FactId, evidence: &Vec<Evidence>, now: &str) -> (r: Result<
        (),
        StoreError,
    >)
        ensures
            (outcome(r), final(self)@) == verify_step(
                old(self)@,
                id,
                evidence.deep_view(),
                now@,
            ),
    {
        if evidence.len() == 0 {
            return Err(StoreError::Domain(DomainError::VerifiedWithoutEvidence));
        }
        self.push_evidence(id, evidence, now);
        self.edit_rows(id, FactEdit::Confirmed, now);
        Ok(())
    }

    /// Marks a fact confirmed, attaching what confirms it. Refused without evidence:
    /// the strongest status must not be the cheapest to assert, by hand any more than
    /// by tool.
    pub fn verify_fact(&mut self, id: FactId, evidence: &Vec<Evidence>) -> (r: Result<
        (),
        StoreError,
    >)
        ensures
            exists|now: Seq<char>|
                clock_text(now) && (outcome(r), final(self)@) == #[trigger] verify_step(
                    old(self)@,
                    id,
                    evidence.deep_view(),
                    now,
                ),
    {
        let now = Moment::now().text();
        self.verify_fact_at(id, evidence, now.as_str())
    }

    /// Withdraws a fact, recording why, at a given time.
    pub fn revoke_fact_at(&mut self, id: FactId, reason: &str, now: &str)
        ensures
            final(self)@ == with_changed_fact(old(self)@, id, withdrawn(reason@, now@)),
    {
        self.edit_rows(id, FactEdit::Withdrawn(reason), now);
    }

    /// Withdraws a fact, recording why.
    ///
    /// Reversible through [`Store::set_fact_status`]: changing one's mind is ordinary.
    pub fn revoke_fact(&mut self, id: FactId, reason: &str)
        ensures
            exists|now: Seq<char>|
                clock_text(now) && final(self)@ == with_changed_fact(
                    old(self)@,
                    id,
                    #[trigger] withdrawn(reason@, now),
                ),
    {
        let now = Moment::now().text();
        self.revoke_fact_at(id, reason, now.as_str())
    }

    /// Sets a fact's status directly, at a given time.
    pub fn set_fact_status_at(&mut self, id: FactId, status: FactStatus, now: &str)
        ensures
            final(self)@ == with_changed_fact(old(self)@, id, in_state(status, now@)),
    {
        self.edit_rows(id, FactEdit::InState(status), now);
    }

    /// Sets a fact's status directly. Used to reinstate a withdrawal.
    pub fn set_fact_status(&mut self, id: FactId, status: FactStatus)
        ensures
            exists|now: Seq<char>|
                clock_text(now) && final(self)@ == with_changed_fact(
                    old(self)@,
                    id,
                    #[trigger] in_state(status, now),
                ),
    {
        let now = Moment::now().text();
        self.set_fact_status_at(id, status, now.as_str())
    }

    /// Rewrites a fact as a new version under a given identifier, superseding the old
    /// one, at a given time.
    pub fn edit_fact_at(
        &mut self,
        id: FactId,
        title: &str,
        body: &str,
        replacement: FactId,
        now: &str,
    ) -> (r: Result<FactId, StoreError>)
        ensures
            (outcome(r), final(self)@) == edit_step(
                old(self)@,
                id,
                title@,
                body@,
                replacement,
                now@,
            ),
    {
        let ghost before = self@;
        let i: usize = match self.fact_at(id) {
            None => {
                let text = id.text();
                return Err(StoreError::Serialization(concat2("no fact ", text.as_str())));
            },
            Some(i) => i,
        };
        if let Err(error) = self.build_fact(i) {
            return Err(error);
        }
        if self.has_fact(replacement) {
            return Err(taken_error("facts.id"));
        }
        let row = FactRow {
            id: replacement,
            name: copy_text(&self.facts[i].name),
            title: title.to_owned(),
            body: body.to_owned(),
            kind: self.facts[i].kind,
            scope: self.facts[i].scope,
            cardinality: self.facts[i].cardinality,
            status: self.facts[i].status,
            confidence: self.facts[i].confidence,
            workspace_id: self.facts[i].workspace_id,
            run_id: self.facts[i].run_id,
            namespace: copy_option(&self.facts[i].namespace),
            provenance: "curated".to_owned(),
            superseded_by: None,
            created_at: now.to_owned(),
            updated_at: now.to_owned(),
        };
        let ghost added = row@;
        assert(added == reworded(before.facts[i as int], replacement, title@, body@, now@));
        self.facts.push(row);
        assert(self@.facts =~= before.facts.push(added));
        assert(self@ =~= (StoreModel { facts: before.facts.push(added), ..before }));
        self.edit_rows(id, FactEdit::SupersededBy(replacement), now);
        Ok(replacement)
    }

    /// Rewrites a fact as a new version, superseding the old one.
    ///
    /// What was believed before stays readable, because a decision may have been made
    /// on it.
    pub fn edit_fact(&mut self, id: FactId, title: &str, body: &str) -> (r: Result<
        FactId,
        StoreError,
    >)
        ensures
            exists|replacement: FactId, now: Seq<char>|
                marked_random(replacement.0) && clock_text(now) && (outcome(r), final(self)@)
                    == #[trigger] edit_step(
                    old(self)@,
                    id,
                    title@,
                    body@,
                    replacement,
                    now,
                ),
    {
        let replacement = FactId::new();
        let now = Moment::now().text();
        self.edit_fact_at(id, title, body, replacement, now.as_str())
    }

    /// Moves one fact to another scope, at a given time.
    pub fn set_fact_scope_at(
        &mut self,
        id: FactId,
        scope: FactScope,
        workspace_id: Option<WorkspaceId>,
        now: &str,
    )
        ensures
            final(self)@ == with_changed_fact(
                old(self)@,
                id,
                rescoped(scope, workspace_id, now@),
            ),
    {
        self.edit_rows(id, FactEdit::Rescoped(scope, workspace_id), now);
    }

    /// Moves one fact to another scope.
    ///
    /// Unlike promoting a whole namespace, this is for the single observation that
    /// turns out to be general.
    pub fn set_fact_scope(
        &mut self,
        id: FactId,
        scope: FactScope,
        workspace_id: Option<WorkspaceId>,
    )
        ensures
            exists|now: Seq<char>|
                clock_text(now) && final(self)@ == with_changed_fact(
                    old(self)@,
                    id,
                    #[trigger] rescoped(scope, workspace_id, now),
                ),
    {
        let now = Moment::now().text();
        self.set_fact_scope_at(id, scope, workspace_id, now.as_str())
    }

    /// Says whether values of a fact compete, at a given time.
    pub fn set_fact_cardinality_at(&mut self, id: FactId, cardinality: Cardinality, now: &str)
        ensures
            final(self)@ == with_changed_fact(old(self)@, id, recounted(cardinality, now@)),
    {
        self.edit_rows(id, FactEdit::Recounted(cardinality), now);
    }

    /// Says whether values of a fact compete with each other or sit side by side.
    pub fn set_fact_cardinality(&mut self, id: FactId, cardinality: Cardinality)
        ensures
            exists|now: Seq<char>|
                clock_text(now) && final(self)@ == with_changed_fact(
                    old(self)@,
                    id,
                    #[trigger] recounted(cardinality, now),
                ),
    {
        let now = Moment::now().text();
        self.set_fact_cardinality_at(id, cardinality, now.as_str())
    }

    /// Folds `duplicate` into `keep`, at a given time.
    pub fn merge_facts_at(&mut self, keep: FactId, duplicate: FactId, now: &str) -> (r: Result<
        (),
        StoreError,
    >)
        ensures
            (outcome(r), final(self)@) == merge_step(old(self)@, keep, duplicate, now@),
    {
        if keep == duplicate {
            return Err(
                StoreError::Serialization("a fact cannot be merged into itself".to_owned()),
            );
        }
        let name = match self.fact_at(duplicate) {
            None => {
                return Ok(());
            },
            Some(i) => copy_text(&self.facts[i].name),
        };
        if !self.has_fact(keep) {
            return Err(dangling_error());
        }
        // Superseded, not contradicted: the two say the same thing twice, and marking
        // a disagreement that does not exist would mislead whoever reads it later.
        self.edit_rows(duplicate, FactEdit::SupersededBy(keep), now);
        let ghost before = self@;
        let row = RelationRow {
            from_fact_id: keep,
            to_name: name,
            predicate: RelationKind::Supersedes,
            created_at: now.to_owned(),
        };
        let ghost added = row@;
        self.relations.push(row);
        assert(self@.relations =~= before.relations.push(added));
        assert(self@ =~= (StoreModel { relations: before.relations.push(added), ..before }));
        Ok(())
    }

    /// Folds `duplicate` into `keep`.
    ///
    /// The duplicate stops being retrieved and gains a relation from the one that
    /// survived, so a later reader can see that two accounts were merged rather than
    /// that one silently vanished. Refused for a fact and itself, which is always a
    /// mistake in the caller rather than an instruction, and for one to keep that is not there.
    pub fn merge_facts(&mut self, keep: FactId, duplicate: FactId) -> (r: Result<(), StoreError>)
        ensures
            exists|now: Seq<char>|
                clock_text(now) && (outcome(r), final(self)@) == #[trigger] merge_step(
                    old(self)@,
                    keep,
                    duplicate,
                    now,
                ),
    {
        let now = Moment::now().text();
        self.merge_facts_at(keep, duplicate, now.as_str())
    }
}

// --- finding duplicates ----------------------------------------------------

/// Shorter words are grammar and shared by everything.
pub const MIN_LENGTH: usize = 5;

/// One word in common is a topic; two start to be a repetition.
pub const MIN_SHARED: usize = 2;

/// Marks what stands between the words of a title.
pub open spec fn marks_around(s: Seq<char>) -> Seq<bool> {
    Seq::new(s.len(), |i: int| !letter_or_digit(s[i]))
}

/// Being long enough to say something.
pub open spec fn saying() -> spec_fn(Seq<char>) -> bool {
    |word: Seq<char>| word.len() >= MIN_LENGTH
}

/// The words of a text cut at the marked positions that say something.
pub open spec fn words_between(s: Seq<char>, marks: Seq<bool>) -> Seq<Seq<char>> {
    pieces(s, marks).filter(saying())
}

/// Some words without regard to case, each once.
pub open spec fn folded(found: Seq<Seq<char>>) -> Set<Seq<char>> {
    found.map_values(|word: Seq<char>| lowered(word)).to_set()
}

/// The words of a title.
pub open spec fn title_words(title: Seq<char>) -> Set<Seq<char>> {
    folded(words_between(title, marks_around(title)))
}

/// Whether two sets of words overlap enough to be one claim: two words at least, and
/// half of the smaller set. A short title fully contained in a long one is still a
/// repetition, and comparing with the union would hide it.
pub open spec fn overlap(left: Set<Seq<char>>, right: Set<Seq<char>>) -> bool {
    let shared = left.intersect(right).len();
    let smaller = if left.len() < right.len() {
        left.len()
    } else {
        right.len()
    };
    shared >= MIN_SHARED && 2 * shared >= smaller
}

/// Whether two facts look like the same thing said twice.
pub open spec fn alike(left: FactModel, right: FactModel) -> bool {
    left.namespace == right.namespace && overlap(title_words(left.title), title_words(right.title))
}

/// The pairs of facts that look alike, from a position on, in the order of the list.
pub open spec fn alike_from(facts: Seq<FactModel>, i: int, j: int) -> Seq<(FactModel, FactModel)>
    decreases facts.len() - i, facts.len() - j,
{
    if i >= facts.len() {
        Seq::empty()
    } else if j >= facts.len() {
        alike_from(facts, i + 1, i + 2)
    } else if alike(facts[i], facts[j]) {
        seq![(facts[i], facts[j])] + alike_from(facts, i, j + 1)
    } else {
        alike_from(facts, i, j + 1)
    }
}

/// How many pairs a list of at most `limit` is cut at: the first is always shown.
pub open spec fn pairs_shown(limit: usize) -> nat {
    if limit == 0 {
        1
    } else {
        limit as nat
    }
}

/// The filter that finds what may be a duplicate.
pub open spec fn duplicate_filter() -> FactFilterModel {
    FactFilterModel {
        namespace: None,
        scope: None,
        kind: None,
        status: None,
        text: None,
        limit: Some(500),
    }
}

fn saying_words(chars: &Vec<char>, marks: &Vec<bool>) -> (r: Vec<String>)
    requires
        marks@.len() == chars@.len(),
    ensures
        r.deep_view() == words_between(chars@, marks@),
{
    let found = split_marked(chars, marks);
    let ghost all = found.deep_view();
    let ghost p = saying();
    let mut r: Vec<String> = Vec::new();
    let mut i: usize = 0;
    assert(all.take(0).filter(p) =~= Seq::<Seq<char>>::empty()) by {
        reveal(Seq::filter);
    }
    assert(r.deep_view() =~= Seq::<Seq<char>>::empty());
    while i < found.len()
        invariant
            i <= found@.len(),
            all == found.deep_view(),
            p == saying(),
            r.deep_view() =~= all.take(i as int).filter(p),
        decreases found@.len() - i,
    {
        proof {
            assert(all.take(i + 1) =~= all.take(i as int).push(all[i as int]));
            all.take(i as int).lemma_filter_push(all[i as int], p);
        }
        let ghost done = r.deep_view();
        if found[i].as_str().unicode_len() >= MIN_LENGTH {
            r.push(copy_text(&found[i]));
            assert(r.deep_view() =~= done.push(all[i as int]));
        }
        i += 1;
    }
    assert(all.take(i as int) =~= all);
    r
}

fn fold_words(found: &Vec<String>) -> (r: Vec<String>)
    ensures
        r.deep_view().no_duplicates(),
        r.deep_view().to_set() == folded(found.deep_view()),
{
    let ghost all = found.deep_view().map_values(|word: Seq<char>| lowered(word));
    let mut r: Vec<String> = Vec::new();
    let mut i: usize = 0;
    assert(r.deep_view() =~= Seq::<Seq<char>>::empty());
    assert(all.take(0) =~= Seq::<Seq<char>>::empty());
    while i < found.len()
        invariant
            i <= found@.len(),
            all == found.deep_view().map_values(|word: Seq<char>| lowered(word)),
            r.deep_view().no_duplicates(),
            forall|word: Seq<char>|
                r.deep_view().contains(word) <==> #[trigger] all.take(i as int).contains(word),
        decreases found@.len() - i,
    {
        let ghost done = r.deep_view();
        let word = lower(found[i].as_str());
        let ghost next = word@;
        assert(next == all[i as int]);
        if !list_contains(&r, word.as_str()) {
            r.push(word);
            assert(r.deep_view() =~= done.push(next));
        }
        assert forall|w: Seq<char>|
            r.deep_view().contains(w) <==> #[trigger] all.take(i + 1).contains(w) by {
            assert(all.take(i + 1) =~= all.take(i as int).push(next));
            lemma_push_contains(all.take(i as int), next, w);
            lemma_push_contains(done, next, w);
            assert(done.contains(w) <==> all.take(i as int).contains(w));
        }
        i += 1;
    }
    assert(all.take(i as int) =~= all);
    assert(r.deep_view().to_set() =~= folded(found.deep_view()));
    r
}

proof fn lemma_push_contains(s: Seq<Seq<char>>, next: Seq<char>, w: Seq<char>)
    ensures
        s.push(next).contains(w) <==> s.contains(w) || w == next,
{
    if s.contains(w) {
        let i = choose|i: int| 0 <= i < s.len() && s[i] == w;
        assert(s.push(next)[i] == w);
    }
    if w == next {
        assert(s.push(next)[s.len() as int] == w);
    }
    if s.push(next).contains(w) && w != next {
        let i = choose|i: int| 0 <= i < s.push(next).len() && s.push(next)[i] == w;
        assert(s[i] == w);
    }
}

/// Whether two lists of words, each without repetition, overlap enough to be one
/// claim.
pub fn overlapping(left: &Vec<String>, right: &Vec<String>) -> (r: bool)
    requires
        left.deep_view().no_duplicates(),
        right.deep_view().no_duplicates(),
    ensures
        r == overlap(left.deep_view().to_set(), right.deep_view().to_set()),
{
    let ghost all = left.deep_view();
    let ghost others = right.deep_view();
    let ghost mut common: Seq<Seq<char>> = Seq::empty();
    let mut shared: usize = 0;
    let mut i: usize = 0;
    while i < left.len()
        invariant
            i <= left@.len(),
            shared <= i,
            all == left.deep_view(),
            others == right.deep_view(),
            all.no_duplicates(),
            common.len() == shared,
            common.no_duplicates(),
            forall|w: Seq<char>|
                #[trigger] common.contains(w) <==> all.take(i as int).contains(w)
                    && others.contains(w),
        decreases left@.len() - i,
    {
        let ghost done = common;
        let ghost next = all[i as int];
        assert(all.take(i + 1) =~= all.take(i as int).push(next));
        if list_contains(right, left[i].as_str()) {
            shared += 1;
            proof {
                if done.contains(next) {
                    let k = choose|k: int|
                        0 <= k < all.take(i as int).len() && all.take(i as int)[k] == next;
                    assert(all[k] == all[i as int]);
                }
                common = done.push(next);
            }
        }
        assert forall|w: Seq<char>|
            #[trigger] common.contains(w) <==> all.take(i + 1).contains(w) && others.contains(
                w,
            ) by {
            lemma_push_contains(all.take(i as int), next, w);
            lemma_push_contains(done, next, w);
            assert(done.contains(w) <==> all.take(i as int).contains(w) && others.contains(w));
        }
        i += 1;
    }
    proof {
        assert(all.take(i as int) =~= all);
        assert(common.to_set() =~= all.to_set().intersect(others.to_set()));
        common.unique_seq_to_set();
        all.unique_seq_to_set();
        others.unique_seq_to_set();
    }
    let smaller: usize = if left.len() < right.len() {
        left.len()
    } else {
        right.len()
    };
    // At least half, put without doubling.
    shared >= MIN_SHARED && (shared >= smaller || shared >= smaller - shared)
}

fn words_of(title: &str) -> (r: Vec<String>)
    ensures
        r.deep_view().no_duplicates(),
        r.deep_view().to_set() == title_words(title@),
{
    let chars = characters(title);
    let mut marks: Vec<bool> = Vec::new();
    let mut i: usize = 0;
    while i < chars.len()
        invariant
            i <= chars@.len(),
            marks@ =~= marks_around(chars@).take(i as int),
        decreases chars@.len() - i,
    {
        marks.push(!is_letter_or_digit(chars[i]));
        i += 1;
    }
    assert(marks@ =~= marks_around(chars@));
    let found = saying_words(&chars, &marks);
    fold_words(&found)
}

/// Whether two titles look like the same thing said twice.
///
/// Overlap, not a shared word. Everything filed under one project shares its
/// vocabulary, so a single common term pairs facts that merely sit next to each
/// other, and a duplicates list that is mostly noise teaches the reader to skip it.
pub fn looks_like_the_same_thing(left: &str, right: &str) -> (r: bool)
    ensures
        r == overlap(title_words(left@), title_words(right@)),
{
    let left_words = words_of(left);
    let right_words = words_of(right);
    overlapping(&left_words, &right_words)
}

proof fn lemma_rest_alike(facts: Seq<FactModel>, i: int, j: int)
    requires
        0 <= i < facts.len(),
        j >= facts.len(),
    ensures
        alike_from(facts, i, j) == alike_from(facts, i + 1, i + 2),
{
}

fn same_place(left: &Fact, right: &Fact) -> (r: bool)
    ensures
        r == alike(left@, right@),
{
    same_option(&left.namespace, &right.namespace) && looks_like_the_same_thing(
        left.title.as_str(),
        right.title.as_str(),
    )
}

/// The pairs of some facts that look alike, in the order of the list, cut at `limit`.
pub fn alike_pairs(facts: &Vec<Fact>, limit: usize) -> (r: Vec<(Fact, Fact)>)
    ensures
        r.deep_view() == at_most(alike_from(facts.deep_view(), 0, 1), pairs_shown(limit)),
{
    let ghost all = facts.deep_view();
    let ghost target = alike_from(all, 0, 1);
    let mut pairs: Vec<(Fact, Fact)> = Vec::new();
    let mut i: usize = 0;
    assert(pairs.deep_view() =~= Seq::<(FactModel, FactModel)>::empty());
    assert(target =~= pairs.deep_view() + alike_from(all, 0, 1));
    while i < facts.len()
        invariant
            i <= facts@.len(),
            all == facts.deep_view(),
            target == alike_from(all, 0, 1),
            target == pairs.deep_view() + alike_from(all, i as int, i + 1),
            pairs@.len() < pairs_shown(limit),
        decreases facts@.len() - i,
    {
        let mut j: usize = i + 1;
        while j < facts.len()
            invariant
                i < facts@.len(),
                i < j <= facts@.len(),
                all == facts.deep_view(),
                target == alike_from(all, 0, 1),
                target == pairs.deep_view() + alike_from(all, i as int, j as int),
                pairs@.len() < pairs_shown(limit),
            decreases facts@.len() - j,
        {
            assert(all[i as int] == facts@[i as int]@);
            assert(all[j as int] == facts@[j as int]@);
            if same_place(&facts[i], &facts[j]) {
                let ghost done = pairs.deep_view();
                let pair = (facts[i].dup(), facts[j].dup());
                let ghost next = pair.deep_view();
                assert(next == (all[i as int], all[j as int]));
                pairs.push(pair);
                assert(pairs.deep_view() =~= done.push(next));
                assert(target =~= pairs.deep_view() + alike_from(all, i as int, j + 1));
                if pairs.len() >= limit {
                    assert(pairs.deep_view() =~= at_most(target, pairs_shown(limit)));
                    return pairs;
                }
            }
            j += 1;
        }
        proof {
            lemma_rest_alike(all, i as int, j as int);
        }
        i += 1;
    }
    assert(pairs.deep_view() =~= target);
    assert(pairs.deep_view() =~= at_most(target, pairs_shown(limit)));
    pairs
}

/// The pairs of facts that look like duplicates of each other, as many as are shown.
pub open spec fn duplicates_of(s: StoreModel, limit: usize) -> Result<
    Seq<(FactModel, FactModel)>,
    StoreErrorModel,
> {
    match facts_of(s, browsed_rows(s, duplicate_filter())) {
        Err(error) => Err(error),
        Ok(facts) => Ok(at_most(alike_from(facts, 0, 1), pairs_shown(limit))),
    }
}

impl Store {
    /// Facts that look like duplicates of each other.
    ///
    /// Deliberately crude: this only decides what is worth a person's glance, and
    /// anything cleverer would be deciding on their behalf.
    pub fn duplicate_candidates(&self, limit: usize) -> (r: Result<Vec<(Fact, Fact)>, StoreError>)
        ensures
            outcome(r) == duplicates_of(self@, limit),
    {
        let filter = FactFilter {
            namespace: None,
            scope: None,
            kind: None,
            status: None,
            text: None,
            limit: Some(500),
        };
        match self.browse_facts(&filter) {
            Err(error) => Err(error),
            Ok(facts) => Ok(alike_pairs(&facts, limit)),
        }
    }

    /// Everything currently retrievable, for export and for the console, wherever it was
    /// filed.
    pub fn all_live_facts(&self) -> (r: Result<Vec<Fact>, StoreError>)
        ensures
            outcome(r) == facts_of(self@, live_rows(self@)),
    {
        let rows = self.rows_alive();
        self.build_facts(&rows)
    }
}

// --- runs and namespaces ---------------------------------------------------

/// A run as it is listed.
pub open spec fn run_row(r: RunRecordModel) -> RunRowModel {
    RunRowModel {
        run_id: r.id,
        task: r.task,
        stage: r.stage.wire(),
        status: r.status.wire(),
        updated_at: r.updated_at,
    }
}

/// Every row.
pub open spec fn every(len: nat) -> Seq<bool> {
    Seq::new(len, |i: int| true)
}

/// How many runs are listed where `limit` are asked for.
pub open spec fn runs_listed(limit: usize) -> nat {
    if limit as int > i64::MAX as int {
        100
    } else {
        limit as nat
    }
}

/// The most recently touched runs.
pub open spec fn recent(s: StoreModel, limit: usize) -> Seq<RunRowModel> {
    let order = at_most(
        arranged(touched_keys(s.runs), every(s.runs.len()), newest_first()),
        runs_listed(limit),
    );
    Seq::new(order.len(), |i: int| run_row(s.runs[order[i]]))
}

/// The namespaces of the retrievable facts, each once.
pub open spec fn live_namespaces(facts: Seq<FactRowModel>) -> Seq<Seq<char>>
    decreases facts.len(),
{
    if facts.len() == 0 {
        Seq::empty()
    } else {
        let before = live_namespaces(facts.drop_last());
        match facts.last().namespace {
            None => before,
            Some(name) => if !retrievable(facts.last()) || before.contains(name) {
                before
            } else {
                before.push(name)
            },
        }
    }
}

/// Being a retrievable fact of a namespace.
pub open spec fn live_in(namespace: Seq<char>) -> spec_fn(FactRowModel) -> bool {
    |f: FactRowModel| retrievable(f) && f.namespace == Some(namespace)
}

/// Namespaces ordered by how many retrievable facts they hold.
pub open spec fn size_keys(facts: Seq<FactRowModel>) -> Seq<KeyModel> {
    let names = live_namespaces(facts);
    Seq::new(
        names.len(),
        |i: int|
            KeyModel { rank: 0, weight: tally(facts, live_in(names[i])) as u64, text: names[i] },
    )
}

/// How many retrievable facts each namespace holds: the largest first, and of equals
/// by name.
pub open spec fn namespace_sizes(s: StoreModel) -> Seq<(Seq<char>, usize)> {
    let names = live_namespaces(s.facts);
    let order = arranged(size_keys(s.facts), every(names.len()), ascending());
    Seq::new(
        order.len(),
        |i: int| (names[order[i]], tally(s.facts, live_in(names[order[i]])) as usize),
    )
}

/// A run that a person closed.
pub open spec fn tidied(reason: Seq<char>, now: Seq<char>) -> spec_fn(
    RunRecordModel,
) -> RunRecordModel {
    |r: RunRecordModel|
        RunRecordModel {
            status: RunStatus::Completed,
            stage: WorkflowStage::Completed,
            outcome: Some(reason),
            updated_at: now,
            ..r
        }
}

/// Being the run `id`, still open.
pub open spec fn is_open_run(id: RunId) -> spec_fn(RunRecordModel) -> bool {
    |r: RunRecordModel| r.id == id && r.status == RunStatus::Open
}

/// Closing a run by hand.
pub open spec fn tidy_step(
    s: StoreModel,
    id: RunId,
    reason: Seq<char>,
    now: Seq<char>,
) -> StoreModel {
    StoreModel { runs: changed(s.runs, is_open_run(id), tidied(reason, now)), ..s }
}

fn all_of(len: usize) -> (r: Vec<bool>)
    ensures
        r@ == every(len as nat),
{
    let mut r: Vec<bool> = Vec::new();
    let mut i: usize = 0;
    while i < len
        invariant
            i <= len,
            r@ =~= every(i as nat),
        decreases len - i,
    {
        r.push(true);
        i += 1;
    }
    r
}

impl Store {
    /// Recent runs, most recently touched first.
    pub fn recent_runs(&self, limit: usize) -> (r: Vec<RunRow>)
        ensures
            r.deep_view() == recent(self@, limit),
    {
        let keys = self.touched_sort_keys();
        let selected = all_of(self.runs.len());
        let mut order = arrange(
            &keys,
            &selected,
            Arrangement { text_descending: true, newest_row_first: true },
        );
        let ghost whole = row_numbers(order@);
        let limit: usize = if limit as u128 > i64::MAX as u128 {
            100
        } else {
            limit
        };
        if order.len() > limit {
            order.truncate(limit);
        }
        let ghost rows = at_most(whole, limit as nat);
        assert(row_numbers(order@) =~= rows);
        let ghost target = Seq::new(rows.len(), |i: int| run_row(self@.runs[rows[i]]));
        let mut r: Vec<RunRow> = Vec::new();
        let mut k: usize = 0;
        while k < order.len()
            invariant
                k <= order@.len(),
                rows == row_numbers(order@),
                target == Seq::new(rows.len(), |i: int| run_row(self@.runs[rows[i]])),
                forall|i: int| 0 <= i < order@.len() ==> #[trigger] order@[i] < self.runs@.len(),
                r.deep_view() =~= target.take(k as int),
            decreases order@.len() - k,
        {
            let ghost done = r.deep_view();
            assert(rows[k as int] == order@[k as int] as int);
            let run = &self.runs[order[k]];
            let item = RunRow {
                run_id: run.id,
                task: copy_text(&run.task),
                stage: run.stage.to_wire().to_owned(),
                status: run.status.to_wire().to_owned(),
                updated_at: copy_text(&run.updated_at),
            };
            assert(item@ == target[k as int]);
            r.push(item);
            assert(r.deep_view() =~= done.push(target[k as int]));
            k += 1;
        }
        assert(target.take(k as int) =~= target);
        r
    }

    fn list_live_namespaces(&self) -> (r: Vec<String>)
        ensures
            r.deep_view() == live_namespaces(self@.facts),
    {
        let ghost all = self@.facts;
        let mut r: Vec<String> = Vec::new();
        let mut i: usize = 0;
        assert(r.deep_view() =~= Seq::<Seq<char>>::empty());
        assert(all.take(0) =~= Seq::<FactRowModel>::empty());
        while i < self.facts.len()
            invariant
                i <= self.facts@.len(),
                all == self@.facts,
                r.deep_view() == live_namespaces(all.take(i as int)),
            decreases self.facts@.len() - i,
        {
            assert(all.take(i + 1).drop_last() =~= all.take(i as int));
            assert(all.take(i + 1).last() == self.facts@[i as int]@);
            let ghost done = r.deep_view();
            let live = self.facts[i].superseded_by.is_none() && self.facts[i].status
                != FactStatus::Revoked;
            if let Some(name) = &self.facts[i].namespace {
                if live && !list_contains(&r, name.as_str()) {
                    r.push(copy_text(name));
                    assert(r.deep_view() =~= done.push(name@));
                }
            }
            i += 1;
        }
        assert(all.take(i as int) =~= all);
        r
    }

    fn count_live_in(&self, namespace: &str) -> (r: usize)
        ensures
            r == tally(self@.facts, live_in(namespace@)),
    {
        let ghost p = live_in(namespace@);
        let mut count: usize = 0;
        let mut i: usize = 0;
        while i < self.facts.len()
            invariant
                i <= self.facts@.len(),
                p == live_in(namespace@),
                count <= i,
                count == tally(self@.facts.take(i as int), p),
            decreases self.facts@.len() - i,
        {
            proof {
                lemma_tally_step(self@.facts, p, i as int);
            }
            assert(self@.facts[i as int] == self.facts@[i as int]@);
            let live = self.facts[i].superseded_by.is_none() && self.facts[i].status
                != FactStatus::Revoked;
            let here = match &self.facts[i].namespace {
                Some(name) => same(name.as_str(), namespace),
                None => false,
            };
            if live && here {
                count += 1;
            }
            i += 1;
        }
        assert(self@.facts.take(i as int) =~= self@.facts);
        count
    }

    /// How many facts each namespace holds.
    pub fn namespace_counts(&self) -> (r: Vec<(String, usize)>)
        ensures
            r.deep_view() == namespace_sizes(self@),
    {
        let names = self.list_live_namespaces();
        let ghost all = names.deep_view();
        let ghost all_keys = size_keys(self@.facts);
        let mut keys: Vec<SortKey> = Vec::new();
        let mut counts: Vec<usize> = Vec::new();
        let mut i: usize = 0;
        while i < names.len()
            invariant
                i <= names@.len(),
                all == names.deep_view(),
                all == live_namespaces(self@.facts),
                all_keys == size_keys(self@.facts),
                keys.deep_view() =~= all_keys.take(i as int),
                counts@.len() == i,
                forall|j: int|
                    0 <= j < i ==> #[trigger] counts@[j] == tally(self@.facts, live_in(all[j])),
            decreases names@.len() - i,
        {
            let count = self.count_live_in(names[i].as_str());
            let key = SortKey { rank: 0, weight: count as u64, text: copy_text(&names[i]) };
            assert(key@ == all_keys[i as int]);
            let ghost done = keys.deep_view();
            keys.push(key);
            assert(keys.deep_view() =~= done.push(all_keys[i as int]));
            counts.push(count);
            i += 1;
        }
        assert(all_keys.take(i as int) =~= all_keys);
        let selected = all_of(names.len());
        let order = arrange(
            &keys,
            &selected,
            Arrangement { text_descending: false, newest_row_first: false },
        );
        let ghost target = namespace_sizes(self@);
        let mut r: Vec<(String, usize)> = Vec::new();
        let mut k: usize = 0;
        while k < order.len()
            invariant
                k <= order@.len(),
                all == names.deep_view(),
                all == live_namespaces(self@.facts),
                counts@.len() == names@.len(),
                forall|j: int|
                    0 <= j < counts@.len() ==> #[trigger] counts@[j] == tally(
                        self@.facts,
                        live_in(all[j]),
                    ),
                target == namespace_sizes(self@),
                row_numbers(order@) == arranged(
                    size_keys(self@.facts),
                    every(all.len()),
                    ascending(),
                ),
                forall|i: int| 0 <= i < order@.len() ==> #[trigger] order@[i] < names@.len(),
                r.deep_view() =~= target.take(k as int),
            decreases order@.len() - k,
        {
            let ghost done = r.deep_view();
            assert(row_numbers(order@)[k as int] == order@[k as int] as int);
            let item = (copy_text(&names[order[k]]), counts[order[k]]);
            assert(item.deep_view() == target[k as int]);
            r.push(item);
            assert(r.deep_view() =~= done.push(target[k as int]));
            k += 1;
        }
        assert(target.take(k as int) =~= target);
        r
    }

    /// Closes a run by hand, at a given time.
    pub fn close_run_from_console_at(&mut self, id: RunId, reason: &str, now: &str)
        ensures
            final(self)@ == tidy_step(old(self)@, id, reason@, now@),
    {
        let ghost before = self@;
        let ghost p = is_open_run(id);
        let ghost f = tidied(reason@, now@);
        let ghost after = changed(before.runs, p, f);
        let mut i: usize = 0;
        while i < self.runs.len()
            invariant
                i <= self.runs@.len(),
                self.runs@.len() == before.runs.len(),
                p == is_open_run(id),
                f == tidied(reason@, now@),
                after == changed(before.runs, p, f),
                self@ == (StoreModel { runs: self@.runs, ..before }),
                self@.runs =~= after.take(i as int) + before.runs.skip(i as int),
            decreases self.runs@.len() - i,
        {
            let ghost rows = self@.runs;
            assert(rows[i as int] == before.runs[i as int]);
            if self.runs[i].id == id && self.runs[i].status == RunStatus::Open {
                self.runs[i].status = RunStatus::Completed;
                self.runs[i].stage = WorkflowStage::Completed;
                self.runs[i].outcome = Some(reason.to_owned());
                self.runs[i].updated_at = now.to_owned();
            }
            assert(self@.runs[i as int] == after[i as int]);
            assert(self@.runs =~= rows.update(i as int, after[i as int]));
            i += 1;
        }
        assert(self@.runs =~= after);
    }

    /// Closes a run so that it stops being restored into new sessions.
    ///
    /// Distinct from [`Store::finish_run`], which a model calls with an outcome it is
    /// claiming. This is a person tidying up, and says so.
    pub fn close_run_from_console(&mut self, id: RunId, reason: &str)
        ensures
            exists|now: Seq<char>|
                clock_text(now)
                    && final(self)@ == #[trigger] tidy_step(old(self)@, id, reason@, now),
    {
        let now = Moment::now().text();
        self.close_run_from_console_at(id, reason, now.as_str())
    }
}

} // verus!
