//! Durable memory: storing facts, superseding them, and finding them again.
//!
//! Two properties carry this module. A new value never destroys the old one, so
//! a wrong turn can be diagnosed later. And retrieval is scoped, so working on
//! one project does not drag in everything learned elsewhere.

use vstd::prelude::*;

use crate::domain::{
    Evidence, EvidenceModel, RememberCommand, RememberCommandModel, Request, RequestModel,
    Response, ResponseModel,
};
use crate::error::{outcome, DomainError, DomainErrorModel, StoreError, StoreErrorModel};
use crate::ids::{FactId, RunId, WorkspaceId};
use crate::keys::{fact_taken, taken, taken_error};
use crate::moment::{clock_text, Moment};
use crate::operations::executed;
use crate::outside::marked_random;
use crate::paths::{file_name, name_of, parent_name, parent_name_of};
use crate::rows::changed;
use crate::states::{FactScope, RelationKind};
use crate::tables::{
    EvidenceRow, EvidenceRowModel, FactRow, FactRowModel, RelationRow, RelationRowModel, Store,
    StoreModel,
};
use crate::text::{concat3, copy_list, copy_option, copy_text, same, same_option};

verus! {

/// Where a fact is being written from.
#[derive(Debug, PartialEq, Eq)]
pub struct FactContext {
    pub workspace_id: Option<WorkspaceId>,
    pub run_id: Option<RunId>,
    /// The name memory is filed under when no workspace is known yet.
    pub namespace: Option<String>,
    /// How the fact was obtained. Imported memory is marked so that it can be told
    /// apart from what was learned here.
    pub provenance: String,
}

/// The contents of a [`FactContext`].
#[verifier::ext_equal]
pub struct FactContextModel {
    pub workspace_id: Option<WorkspaceId>,
    pub run_id: Option<RunId>,
    pub namespace: Option<Seq<char>>,
    pub provenance: Seq<char>,
}

impl View for FactContext {
    type V = FactContextModel;

    open spec fn view(&self) -> FactContextModel {
        FactContextModel {
            workspace_id: self.workspace_id,
            run_id: self.run_id,
            namespace: self.namespace.deep_view(),
            provenance: self.provenance@,
        }
    }
}

impl DeepView for FactContext {
    type V = FactContextModel;

    open spec fn deep_view(&self) -> FactContextModel {
        self@
    }
}

impl FactContext {
    /// A copy.
    pub fn dup(&self) -> (r: Self)
        ensures
            r@ == self@,
    {
        FactContext {
            workspace_id: self.workspace_id,
            run_id: self.run_id,
            namespace: copy_option(&self.namespace),
            provenance: copy_text(&self.provenance),
        }
    }
}

/// What to retrieve.
#[derive(Debug, PartialEq, Eq)]
pub struct FactQuery {
    /// Free text. `None` returns whatever is in scope, most specific first.
    pub text: Option<String>,
    /// Namespaces the caller is working in. See [`namespace_candidates`].
    pub namespaces: Vec<String>,
    pub workspace_id: Option<WorkspaceId>,
    pub limit: usize,
}

/// The contents of a [`FactQuery`].
#[verifier::ext_equal]
pub struct FactQueryModel {
    pub text: Option<Seq<char>>,
    pub namespaces: Seq<Seq<char>>,
    pub workspace_id: Option<WorkspaceId>,
    pub limit: usize,
}

impl View for FactQuery {
    type V = FactQueryModel;

    open spec fn view(&self) -> FactQueryModel {
        FactQueryModel {
            text: self.text.deep_view(),
            namespaces: self.namespaces.deep_view(),
            workspace_id: self.workspace_id,
            limit: self.limit,
        }
    }
}

impl DeepView for FactQuery {
    type V = FactQueryModel;

    open spec fn deep_view(&self) -> FactQueryModel {
        self@
    }
}

impl FactQuery {
    /// A copy.
    pub fn dup(&self) -> (r: Self)
        ensures
            r@ == self@,
    {
        FactQuery {
            text: copy_option(&self.text),
            namespaces: copy_list(&self.namespaces),
            workspace_id: self.workspace_id,
            limit: self.limit,
        }
    }
}

impl Default for FactContext {
    fn default() -> (r: Self)
        ensures
            r@ == (FactContextModel {
                workspace_id: None,
                run_id: None,
                namespace: None,
                provenance: "session"@,
            }),
    {
        FactContext {
            workspace_id: None,
            run_id: None,
            namespace: None,
            provenance: "session".to_owned(),
        }
    }
}

impl Default for FactQuery {
    fn default() -> (r: Self)
        ensures
            r@ == (FactQueryModel {
                text: None,
                namespaces: Seq::empty(),
                workspace_id: None,
                limit: 10,
            }),
    {
        // Small on purpose: results are read by a model with a context budget,
        // and a long list is skimmed rather than used.
        let r = FactQuery { text: None, namespaces: Vec::new(), workspace_id: None, limit: 10 };
        assert(r@.namespaces =~= Seq::empty());
        r
    }
}

// --- where memory is filed -------------------------------------------------

/// The names a repository's memory may be filed under: its own name, and its
/// own behind that of the directory it stands in.
pub open spec fn candidate_names(root: Seq<char>) -> Seq<Seq<char>> {
    match name_of(root) {
        None => Seq::empty(),
        Some(name) => match parent_name_of(root) {
            None => seq![name],
            Some(parent) => seq![name, parent + "-"@ + name],
        },
    }
}

/// Namespaces a repository at `root` might have its memory filed under.
pub fn namespace_candidates(root: &str) -> (r: Vec<String>)
    ensures
        r.deep_view() == candidate_names(root@),
{
    let mut candidates: Vec<String> = Vec::new();
    if let Some(name) = file_name(root) {
        candidates.push(copy_text(&name));
        if let Some(parent) = parent_name(root) {
            candidates.push(concat3(parent.as_str(), "-", name.as_str()));
        }
    }
    assert(candidates.deep_view() =~= candidate_names(root@));
    candidates
}

// --- writing ---------------------------------------------------------------

/// A fact as it is first written.
pub open spec fn new_fact(
    command: RememberCommandModel,
    context: FactContextModel,
    id: FactId,
    now: Seq<char>,
) -> FactRowModel {
    FactRowModel {
        id,
        name: command.name,
        title: command.title,
        body: command.body,
        kind: command.kind,
        scope: command.scope,
        cardinality: command.cardinality,
        status: command.status,
        confidence: command.confidence,
        workspace_id: context.workspace_id,
        run_id: context.run_id,
        namespace: context.namespace,
        provenance: context.provenance,
        superseded_by: None,
        created_at: now,
        updated_at: now,
    }
}

/// Being a current value, other than `id`, of a name within a namespace and
/// scope.
pub open spec fn competes(
    id: FactId,
    name: Seq<char>,
    namespace: Option<Seq<char>>,
    scope: FactScope,
) -> spec_fn(FactRowModel) -> bool {
    |f: FactRowModel|
        {
            &&& f.name == name
            &&& f.superseded_by is None
            &&& f.id != id
            &&& f.namespace == namespace
            &&& f.scope == scope
        }
}

/// A fact that another one took the place of. What was believed earlier is how a
/// later wrong turn gets diagnosed, so nothing else of it changes.
pub open spec fn superseded(by: FactId, now: Seq<char>) -> spec_fn(FactRowModel) -> FactRowModel {
    |f: FactRowModel| FactRowModel { superseded_by: Some(by), updated_at: now, ..f }
}

/// What a fact was learned from, as rows.
pub open spec fn evidence_rows(fact: FactId, evidence: Seq<EvidenceModel>, now: Seq<char>) -> Seq<
    EvidenceRowModel,
> {
    Seq::new(
        evidence.len(),
        |i: int|
            EvidenceRowModel {
                fact_id: fact,
                locator: evidence[i].locator,
                excerpt: evidence[i].excerpt,
                created_at: now,
            },
    )
}

/// The links of a fact, as rows.
pub open spec fn relation_rows(
    fact: FactId,
    links: Seq<(Seq<char>, RelationKind)>,
    now: Seq<char>,
) -> Seq<RelationRowModel> {
    Seq::new(
        links.len(),
        |i: int|
            RelationRowModel {
                from_fact_id: fact,
                to_name: links[i].0,
                predicate: links[i].1,
                created_at: now,
            },
    )
}

/// The store with a fact in it. Where values of its name compete, it takes the
/// place of the one before it.
pub open spec fn with_fact(
    s: StoreModel,
    command: RememberCommandModel,
    context: FactContextModel,
    id: FactId,
    now: Seq<char>,
) -> StoreModel {
    let written = s.facts.push(new_fact(command, context, id, now));
    StoreModel {
        facts: if command.cardinality.competing() {
            changed(
                written,
                competes(id, command.name, context.namespace, command.scope),
                superseded(id, now),
            )
        } else {
            written
        },
        evidence: s.evidence + evidence_rows(id, command.evidence, now),
        relations: s.relations + relation_rows(id, command.relates_to, now),
        ..s
    }
}

/// The answer to writing a fact.
pub open spec fn remember_answer() -> spec_fn(FactId) -> ResponseModel {
    |r: FactId| ResponseModel::Remember(r)
}

/// The recorded answer to writing a fact.
pub open spec fn remember_reading() -> spec_fn(ResponseModel) -> Option<FactId> {
    |r: ResponseModel|
        match r {
            ResponseModel::Remember(result) => Some(result),
            _ => None,
        }
}

/// Writing a fact.
pub open spec fn remember_step(
    s: StoreModel,
    command: RememberCommandModel,
    refusal: Option<DomainErrorModel>,
    context: FactContextModel,
    id: FactId,
    now: Seq<char>,
) -> (Result<FactId, StoreErrorModel>, StoreModel) {
    match refusal {
        Some(error) => (Err(StoreErrorModel::Domain(error)), s),
        None => executed(
            s,
            command.operation_id,
            RequestModel::Remember(command),
            if fact_taken(s, id) {
                Err(taken("facts.id"@))
            } else {
                Ok((id, with_fact(s, command, context, id, now)))
            },
            remember_answer(),
            remember_reading(),
            now,
        ),
    }
}

impl Store {
    /// Appends what a fact was learned from.
    pub fn push_evidence(&mut self, fact: FactId, evidence: &Vec<Evidence>, now: &str)
        ensures
            final(self)@ == (StoreModel {
                evidence: old(self)@.evidence + evidence_rows(fact, evidence.deep_view(), now@),
                ..old(self)@
            }),
    {
        let ghost before = self@;
        let ghost added = evidence_rows(fact, evidence.deep_view(), now@);
        let mut i: usize = 0;
        while i < evidence.len()
            invariant
                i <= evidence@.len(),
                added == evidence_rows(fact, evidence.deep_view(), now@),
                self@ == (StoreModel { evidence: self@.evidence, ..before }),
                self@.evidence =~= before.evidence + added.take(i as int),
            decreases evidence@.len() - i,
        {
            let ghost rows = self@.evidence;
            let row = EvidenceRow {
                fact_id: fact,
                locator: copy_text(&evidence[i].locator),
                excerpt: copy_option(&evidence[i].excerpt),
                created_at: now.to_owned(),
            };
            assert(row@ == added[i as int]);
            self.evidence.push(row);
            assert(self@.evidence =~= rows.push(added[i as int]));
            i += 1;
        }
        assert(added.take(i as int) =~= added);
    }

    fn push_relations(&mut self, fact: FactId, links: &Vec<(String, RelationKind)>, now: &str)
        ensures
            final(self)@ == (StoreModel {
                relations: old(self)@.relations + relation_rows(fact, links.deep_view(), now@),
                ..old(self)@
            }),
    {
        let ghost before = self@;
        let ghost added = relation_rows(fact, links.deep_view(), now@);
        let mut i: usize = 0;
        while i < links.len()
            invariant
                i <= links@.len(),
                added == relation_rows(fact, links.deep_view(), now@),
                self@ == (StoreModel { relations: self@.relations, ..before }),
                self@.relations =~= before.relations + added.take(i as int),
            decreases links@.len() - i,
        {
            let ghost rows = self@.relations;
            let row = RelationRow {
                from_fact_id: fact,
                to_name: copy_text(&links[i].0),
                predicate: links[i].1,
                created_at: now.to_owned(),
            };
            assert(row@ == added[i as int]);
            self.relations.push(row);
            assert(self@.relations =~= rows.push(added[i as int]));
            i += 1;
        }
        assert(added.take(i as int) =~= added);
    }

    fn supersede_rows(
        &mut self,
        id: FactId,
        name: &str,
        namespace: &Option<String>,
        scope: FactScope,
        now: &str,
    )
        ensures
            final(self)@ == (StoreModel {
                facts: changed(
                    old(self)@.facts,
                    competes(id, name@, namespace.deep_view(), scope),
                    superseded(id, now@),
                ),
                ..old(self)@
            }),
    {
        let ghost before = self@;
        let ghost p = competes(id, name@, namespace.deep_view(), scope);
        let ghost after = changed(before.facts, p, superseded(id, now@));
        let mut i: usize = 0;
        while i < self.facts.len()
            invariant
                i <= self.facts@.len(),
                self.facts@.len() == before.facts.len(),
                p == competes(id, name@, namespace.deep_view(), scope),
                after == changed(before.facts, p, superseded(id, now@)),
                self@ == (StoreModel { facts: self@.facts, ..before }),
                self@.facts =~= after.take(i as int) + before.facts.skip(i as int),
            decreases self.facts@.len() - i,
        {
            let ghost rows = self@.facts;
            assert(rows[i as int] == before.facts[i as int]);
            let live = self.facts[i].superseded_by.is_none() && self.facts[i].id != id
                && self.facts[i].scope == scope;
            if live && same(self.facts[i].name.as_str(), name) && same_option(
                &self.facts[i].namespace,
                namespace,
            ) {
                self.facts[i].superseded_by = Some(id);
                self.facts[i].updated_at = now.to_owned();
            }
            assert(self@.facts[i as int] == after[i as int]);
            assert(self@.facts =~= rows.update(i as int, after[i as int]));
            i += 1;
        }
        assert(self@.facts =~= after);
    }

    /// Writes a fact that has not been written before.
    fn write_fact(
        &mut self,
        command: &RememberCommand,
        context: &FactContext,
        id: FactId,
        now: &str,
    )
        ensures
            final(self)@ == with_fact(old(self)@, command@, context@, id, now@),
    {
        let ghost before = self@;
        let row = FactRow {
            id,
            name: copy_text(&command.name),
            title: copy_text(&command.title),
            body: copy_text(&command.body),
            kind: command.kind,
            scope: command.scope,
            cardinality: command.cardinality,
            status: command.status,
            confidence: command.confidence,
            workspace_id: context.workspace_id,
            run_id: context.run_id,
            namespace: copy_option(&context.namespace),
            provenance: copy_text(&context.provenance),
            superseded_by: None,
            created_at: now.to_owned(),
            updated_at: now.to_owned(),
        };
        let ghost added = row@;
        self.facts.push(row);
        assert(self@.facts =~= before.facts.push(added));
        assert(self@ =~= (StoreModel { facts: before.facts.push(added), ..before }));
        if command.cardinality.conflicts_within_scope() {
            self.supersede_rows(
                id,
                command.name.as_str(),
                &context.namespace,
                command.scope,
                now,
            );
        }
        self.push_evidence(id, &command.evidence, now);
        self.push_relations(id, &command.relates_to, now);
    }

    /// Writes a fact, superseding the previous value when cardinality demands, at
    /// a given time and under a given identifier.
    pub fn remember_at(
        &mut self,
        command: &RememberCommand,
        refusal: &Option<DomainError>,
        context: &FactContext,
        id: FactId,
        now: &str,
    ) -> (r: Result<FactId, StoreError>)
        ensures
            (outcome(r), final(self)@) == remember_step(
                old(self)@,
                command@,
                refusal.deep_view(),
                context@,
                id,
                now@,
            ),
    {
        if let Some(error) = refusal {
            return Err(StoreError::Domain(error.dup()));
        }
        let request = Request::Remember(command.dup());
        match self.lookup_operation(command.operation_id, &request) {
            Err(error) => {
                return Err(error);
            },
            Ok(Some(Response::Remember(result))) => {
                return Ok(result);
            },
            Ok(Some(_)) => {
                return Err(
                    StoreError::Serialization(
                        "the recorded response answers another kind of request".to_owned(),
                    ),
                );
            },
            Ok(None) => {},
        }
        if self.has_fact(id) {
            return Err(taken_error("facts.id"));
        }
        self.write_fact(command, context, id, now);
        self.record_operation(command.operation_id, request, Response::Remember(id), now);
        Ok(id)
    }

    /// Writes a fact, superseding the previous value when cardinality demands.
    pub fn remember(
        &mut self,
        command: &RememberCommand,
        refusal: &Option<DomainError>,
        context: &FactContext,
    ) -> (r: Result<FactId, StoreError>)
        ensures
            exists|id: FactId, now: Seq<char>|
                marked_random(id.0) && clock_text(now) && (outcome(r), final(self)@)
                    == #[trigger] remember_step(
                    old(self)@,
                    command@,
                    refusal.deep_view(),
                    context@,
                    id,
                    now,
                ),
    {
        let id = FactId::new();
        let now = Moment::now().text();
        self.remember_at(command, refusal, context, id, now.as_str())
    }
}

} // verus!
