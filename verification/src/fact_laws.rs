//! What holds of facts: how they are written, corrected by hand, and listed.

use vstd::prelude::*;

use crate::curation::{
    alike_from, browsed_rows, duplicates_of, edit_step, in_state, is_explicit, is_fact, is_owed,
    is_retrievable, is_revoked, is_superseded, listed_marks, live_in, live_namespaces,
    marks_around, merge_step, namespace_sizes, overlap, recent, recounted, rescoped, run_in,
    saying, size_keys, tidy_step, title_words, verify_step, with_changed_fact, withdrawn,
    words_between, FactFilterModel, RunRowModel,
};
use crate::domain::{
    EvidenceModel, FactModel, RememberCommandModel, RequestModel, ResponseModel,
};
use crate::error::StoreErrorModel;
use crate::facts::{remember_step, FactContextModel, FactQueryModel};
use crate::grouping::{promotable, promote_step};
use crate::ids::{FactId, RunId, WorkspaceId};
use crate::keys::fact_taken;
use crate::operations::is_operation;
use crate::order::{
    arranged, law_arranged_lists_the_selected, lemma_listed_once, lemma_text_lt_irreflexive,
    lemma_text_lt_total, place_of_number, precedes, text_lt,
};
use crate::outside::uuid_text;
use crate::plan::ascending;
use crate::resume_laws::unanswered;
use crate::retrieval::{facts_of, written_keys};
use crate::rows::{is_first, lemma_first, lemma_first_is_first, lemma_no_first, tally};
use crate::search_laws::in_scope;
use crate::sessions::{newest_first, touched_keys};
use crate::states::{
    Cardinality, FactScope, FactStatus, JobStatus, RelationKind, RunStatus, WireName, WorkflowStage,
};
use crate::tables::{
    EvidenceRowModel, FactRowModel, JobRowModel, OperationRowModel, RelationRowModel,
    RunRecordModel, StoreModel, WorkspaceRowModel,
};
use crate::text::{lowered, occurs_in};

verus! {

// --- writing ---------------------------------------------------------------

/// A fact is written as it was told, where it was learned: under its own identifier, as the
/// current value, at that time, with what it was learned from and what it relates to. A single-
/// valued one takes the place of the current values of its name in the same namespace and
/// scope, and of no others; nothing else changes but that the operation is answered.
pub proof fn law_a_fact_is_written_as_it_was_told(
    s: StoreModel,
    command: RememberCommandModel,
    context: FactContextModel,
    id: FactId,
    now: Seq<char>,
    i: int,
    j: int,
    k: int,
)
    requires
        forall|n: int|
            0 <= n < s.operations.len() ==> (#[trigger] s.operations[n]).id
                != command.operation_id,
        forall|n: int| 0 <= n < s.facts.len() ==> (#[trigger] s.facts[n]).id != id,
    ensures
        ({
            let (answer, after) = remember_step(s, command, None, context, id, now);
            &&& answer == Ok::<FactId, StoreErrorModel>(id)
            &&& after.facts.len() == s.facts.len() + 1
            &&& after.facts.last() == (FactRowModel {
                id,
                name: command.name,
                title: command.title,
                body: command.body,
                kind: command.kind,
                scope: command.scope,
                cardinality: command.cardinality,
                status: command.status,
                confidence: command.confidence,
                workspace_id: context.workspace_id,
                run_id: context.run_id,
                namespace: context.namespace,
                provenance: context.provenance,
                superseded_by: None,
                created_at: now,
                updated_at: now,
            })
            &&& 0 <= i < s.facts.len() ==> after.facts[i] == if command.cardinality
                == Cardinality::Single && s.facts[i].superseded_by is None && s.facts[i].name
                == command.name && s.facts[i].namespace == context.namespace && s.facts[i].scope
                == command.scope {
                FactRowModel { superseded_by: Some(id), updated_at: now, ..s.facts[i] }
            } else {
                s.facts[i]
            }
            &&& after.evidence.len() == s.evidence.len() + command.evidence.len()
            &&& after.evidence.take(s.evidence.len() as int) == s.evidence
            &&& 0 <= j < command.evidence.len() ==> after.evidence[s.evidence.len() + j] == (
            EvidenceRowModel {
                fact_id: id,
                locator: command.evidence[j].locator,
                excerpt: command.evidence[j].excerpt,
                created_at: now,
            })
            &&& after.relations.len() == s.relations.len() + command.relates_to.len()
            &&& after.relations.take(s.relations.len() as int) == s.relations
            &&& 0 <= k < command.relates_to.len() ==> after.relations[s.relations.len() + k] == (
            RelationRowModel {
                from_fact_id: id,
                to_name: command.relates_to[k].0,
                predicate: command.relates_to[k].1,
                created_at: now,
            })
            &&& after.operations == s.operations.push(
                OperationRowModel {
                    id: command.operation_id,
                    request: RequestModel::Remember(command),
                    response: ResponseModel::Remember(id),
                    created_at: now,
                },
            )
            &&& after == (StoreModel {
                facts: after.facts,
                evidence: after.evidence,
                relations: after.relations,
                operations: after.operations,
                ..s
            })
        }),
{
    lemma_no_first(s.operations, is_operation(command.operation_id));
    assert(!fact_taken(s, id));
    let after = remember_step(s, command, None, context, id, now).1;
    assert(after.evidence.take(s.evidence.len() as int) =~= s.evidence);
    assert(after.relations.take(s.relations.len() as int) =~= s.relations);
}

// --- confirming and withdrawing --------------------------------------------

/// Being changed in just one fact.
pub open spec fn changed_alone(
    s: StoreModel,
    after: StoreModel,
    id: FactId,
    i: int,
    row: FactRowModel,
) -> bool {
    &&& after == (StoreModel { facts: after.facts, ..s })
    &&& after.facts.len() == s.facts.len()
    &&& 0 <= i < s.facts.len() ==> after.facts[i] == if s.facts[i].id == id {
        row
    } else {
        s.facts[i]
    }
}

/// What was confirmed is verified and trusted at least at ninety-five hundredths, and keeps
/// more where it had more; what confirmed it is written down with it. Nothing else changes.
pub proof fn law_what_was_confirmed_is_verified(
    s: StoreModel,
    id: FactId,
    evidence: Seq<EvidenceModel>,
    now: Seq<char>,
    i: int,
    j: int,
)
    requires
        evidence.len() > 0,
        0 <= i < s.facts.len(),
    ensures
        ({
            let (answer, after) = verify_step(s, id, evidence, now);
            &&& answer is Ok
            &&& changed_alone(
                StoreModel { evidence: after.evidence, ..s },
                after,
                id,
                i,
                FactRowModel {
                    status: FactStatus::Verified,
                    confidence: if place_of_number(s.facts[i].confidence) < place_of_number(
                        0x3FEE_6666_6666_6666,
                    ) {
                        0x3FEE_6666_6666_6666
                    } else {
                        s.facts[i].confidence
                    },
                    updated_at: now,
                    ..s.facts[i]
                },
            )
            &&& after.evidence.len() == s.evidence.len() + evidence.len()
            &&& after.evidence.take(s.evidence.len() as int) == s.evidence
            &&& 0 <= j < evidence.len() ==> after.evidence[s.evidence.len() + j] == (
            EvidenceRowModel {
                fact_id: id,
                locator: evidence[j].locator,
                excerpt: evidence[j].excerpt,
                created_at: now,
            })
        }),
{
    let after = verify_step(s, id, evidence, now).1;
    assert(after.evidence.take(s.evidence.len() as int) =~= s.evidence);
}

/// What was withdrawn is revoked, and its body says why behind what it said before; what was
/// withdrawn before stays as it is. A change of state, of scope or of cardinality changes that
/// and the time of writing alone. Each touches one fact, and nothing else.
pub proof fn law_a_correction_by_hand_touches_one_thing(
    s: StoreModel,
    id: FactId,
    reason: Seq<char>,
    status: FactStatus,
    scope: FactScope,
    workspace: Option<WorkspaceId>,
    cardinality: Cardinality,
    now: Seq<char>,
    i: int,
)
    requires
        0 <= i < s.facts.len(),
    ensures
        changed_alone(
            s,
            with_changed_fact(s, id, withdrawn(reason, now)),
            id,
            i,
            if s.facts[i].status == FactStatus::Revoked {
                s.facts[i]
            } else {
                FactRowModel {
                    status: FactStatus::Revoked,
                    body: s.facts[i].body + "\n\nWithdrawn: "@ + reason,
                    updated_at: now,
                    ..s.facts[i]
                }
            },
        ),
        changed_alone(
            s,
            with_changed_fact(s, id, in_state(status, now)),
            id,
            i,
            FactRowModel { status, updated_at: now, ..s.facts[i] },
        ),
        changed_alone(
            s,
            with_changed_fact(s, id, rescoped(scope, workspace, now)),
            id,
            i,
            FactRowModel { scope, workspace_id: workspace, updated_at: now, ..s.facts[i] },
        ),
        changed_alone(
            s,
            with_changed_fact(s, id, recounted(cardinality, now)),
            id,
            i,
            FactRowModel { cardinality, updated_at: now, ..s.facts[i] },
        ),
{
}

// --- correcting ------------------------------------------------------------

/// A corrected fact is the fact it replaces but for its words: it has its name, kind, scope,
/// cardinality, status, confidence, workspace, run and namespace, and the title and the body
/// that were given. It stands as the current value, and the one it replaces is superseded by
/// it; nothing else changes.
pub proof fn law_a_corrected_fact_is_what_it_was_but_for_its_words(
    s: StoreModel,
    id: FactId,
    title: Seq<char>,
    body: Seq<char>,
    replacement: FactId,
    now: Seq<char>,
    k: int,
    i: int,
)
    requires
        edit_step(s, id, title, body, replacement, now).0 is Ok,
        0 <= k < s.facts.len(),
        s.facts[k].id == id,
        forall|j: int| 0 <= j < k ==> (#[trigger] s.facts[j]).id != id,
    ensures
        ({
            let (answer, after) = edit_step(s, id, title, body, replacement, now);
            let before = s.facts[k];
            &&& answer == Ok::<FactId, StoreErrorModel>(replacement)
            &&& after == (StoreModel { facts: after.facts, ..s })
            &&& after.facts.len() == s.facts.len() + 1
            &&& after.facts.last() == (FactRowModel {
                id: replacement,
                name: before.name,
                title,
                body,
                kind: before.kind,
                scope: before.scope,
                cardinality: before.cardinality,
                status: before.status,
                confidence: before.confidence,
                workspace_id: before.workspace_id,
                run_id: before.run_id,
                namespace: before.namespace,
                provenance: "curated"@,
                superseded_by: None,
                created_at: now,
                updated_at: now,
            })
            &&& 0 <= i < s.facts.len() ==> after.facts[i] == if s.facts[i].id == id {
                FactRowModel { superseded_by: Some(replacement), updated_at: now, ..s.facts[i] }
            } else {
                s.facts[i]
            }
        }),
{
    let p = is_fact(id);
    assert(is_first(s.facts, p, k));
    lemma_first(s.facts, p, k);
    assert(replacement != id);
}

/// A corrected fact is in scope for just the queries that the fact it replaces was in scope
/// for, and that one is in scope for none any more.
pub proof fn law_a_corrected_fact_is_seen_where_it_was(
    s: StoreModel,
    id: FactId,
    title: Seq<char>,
    body: Seq<char>,
    replacement: FactId,
    now: Seq<char>,
    k: int,
    query: FactQueryModel,
)
    requires
        edit_step(s, id, title, body, replacement, now).0 is Ok,
        0 <= k < s.facts.len(),
        s.facts[k].id == id,
        forall|j: int| 0 <= j < k ==> (#[trigger] s.facts[j]).id != id,
        s.facts[k].superseded_by is None,
    ensures
        ({
            let after = edit_step(s, id, title, body, replacement, now).1;
            &&& in_scope(after.facts.last(), query) <==> in_scope(s.facts[k], query)
            &&& !in_scope(after.facts[k], query)
        }),
{
    law_a_corrected_fact_is_what_it_was_but_for_its_words(
        s,
        id,
        title,
        body,
        replacement,
        now,
        k,
        k,
    );
}

/// A correction of a fact that is not there is refused, and changes nothing.
pub proof fn law_just_a_fact_that_is_there_is_corrected(
    s: StoreModel,
    id: FactId,
    title: Seq<char>,
    body: Seq<char>,
    replacement: FactId,
    now: Seq<char>,
)
    requires
        forall|j: int| 0 <= j < s.facts.len() ==> (#[trigger] s.facts[j]).id != id,
    ensures
        edit_step(s, id, title, body, replacement, now).0 is Err,
        edit_step(s, id, title, body, replacement, now).1 == s,
{
    lemma_no_first(s.facts, is_fact(id));
}

/// A merge supersedes the duplicate by the fact that is kept, and links that to the name of the
/// duplicate; nothing else changes.
pub proof fn law_a_merge_supersedes_just_the_duplicate(
    s: StoreModel,
    keep: FactId,
    duplicate: FactId,
    now: Seq<char>,
    k: int,
    l: int,
    i: int,
)
    requires
        keep != duplicate,
        0 <= k < s.facts.len(),
        s.facts[k].id == duplicate,
        forall|j: int| 0 <= j < k ==> (#[trigger] s.facts[j]).id != duplicate,
        0 <= l < s.facts.len(),
        s.facts[l].id == keep,
        0 <= i < s.facts.len(),
    ensures
        ({
            let (answer, after) = merge_step(s, keep, duplicate, now);
            &&& answer is Ok
            &&& changed_alone(
                StoreModel { relations: after.relations, ..s },
                after,
                duplicate,
                i,
                FactRowModel { superseded_by: Some(keep), updated_at: now, ..s.facts[i] },
            )
            &&& after.relations == s.relations.push(
                RelationRowModel {
                    from_fact_id: keep,
                    to_name: s.facts[k].name,
                    predicate: RelationKind::Supersedes,
                    created_at: now,
                },
            )
        }),
{
    let p = is_fact(duplicate);
    assert(is_first(s.facts, p, k));
    lemma_first(s.facts, p, k);
}

// --- promoting -------------------------------------------------------------

/// Promoting a namespace gives each of its current facts to the workspace, but for those about
/// the person, and counts them; every other fact, and everything else of these, stays.
pub proof fn law_promoting_moves_just_the_facts_of_a_namespace(
    s: StoreModel,
    namespace: Seq<char>,
    workspace: WorkspaceId,
    now: Seq<char>,
    i: int,
)
    requires
        0 <= i < s.facts.len(),
        s.facts.len() <= usize::MAX,
    ensures
        ({
            let (moved, after) = promote_step(s, namespace, workspace, now);
            let f = s.facts[i];
            let moves = f.namespace == Some(namespace) && f.superseded_by is None && f.scope
                != FactScope::User;
            &&& after == (StoreModel { facts: after.facts, ..s })
            &&& after.facts.len() == s.facts.len()
            &&& after.facts[i] == if moves {
                FactRowModel {
                    scope: FactScope::Workspace,
                    workspace_id: Some(workspace),
                    updated_at: now,
                    ..f
                }
            } else {
                f
            }
            &&& moves ==> moved > 0
        }),
{
    lemma_tally_positive(s.facts, promotable(namespace), i);
    crate::rows::lemma_tally_bound(s.facts, promotable(namespace));
}

proof fn lemma_tally_positive<A>(rows: Seq<A>, p: spec_fn(A) -> bool, i: int)
    requires
        0 <= i < rows.len(),
    ensures
        p(rows[i]) ==> tally(rows, p) > 0,
    decreases rows.len(),
{
    if i < rows.len() - 1 {
        lemma_tally_positive(rows.drop_last(), p, i);
        assert(rows.drop_last()[i] == rows[i]);
    }
}

// --- browsing --------------------------------------------------------------

/// Fitting a filter: each thing it names is so, and without a status it is a current fact that
/// was not withdrawn.
pub open spec fn fits(f: FactRowModel, filter: FactFilterModel) -> bool {
    &&& filter.namespace is None || f.namespace == filter.namespace
    &&& filter.scope is None || filter.scope == Some(f.scope)
    &&& filter.kind is None || filter.kind == Some(f.kind)
    &&& filter.status is Some ==> filter.status == Some(f.status)
    &&& filter.status is None ==> f.superseded_by is None && f.status != FactStatus::Revoked
    &&& filter.text is None || occurs_in(filter.text->0, f.name) || occurs_in(
        filter.text->0,
        f.title,
    ) || occurs_in(filter.text->0, f.body)
}

/// Browsing lists just the facts that fit, the latest written first; no more than were asked
/// for, and where fewer are listed every one that fits is.
pub proof fn law_browsing_lists_just_what_fits(
    s: StoreModel,
    filter: FactFilterModel,
    i: int,
    a: int,
    b: int,
)
    requires
        0 <= i < s.facts.len(),
        0 <= a <= b < browsed_rows(s, filter).len(),
    ensures
        ({
            let rows = browsed_rows(s, filter);
            &&& 0 <= rows[a] < s.facts.len() && fits(s.facts[rows[a]], filter)
            &&& 0 <= rows[b] < s.facts.len() && fits(s.facts[rows[b]], filter)
            &&& !text_lt(s.facts[rows[a]].created_at, s.facts[rows[b]].created_at)
            &&& a < b ==> rows[a] != rows[b]
            &&& filter.limit is Some ==> rows.len() <= filter.limit->0
            &&& fits(s.facts[i], filter) && !rows.contains(i) ==> filter.limit is Some && rows.len()
                == filter.limit->0 && !text_lt(
                s.facts[rows[a]].created_at,
                s.facts[i].created_at,
            )
        }),
{
    let keys = written_keys(s.facts);
    let marks = listed_marks(s.facts, filter);
    let all = arranged(keys, marks, newest_first());
    let rows = browsed_rows(s, filter);
    law_arranged_lists_the_selected(keys, marks, newest_first());
    lemma_listed_once(keys, marks, newest_first());
    assert(rows[a] == all[a] && rows[b] == all[b]);
    assert(marks[all[a]] && marks[all[b]]);
    lemma_text_lt_irreflexive(s.facts[rows[a]].created_at);
    if a < b {
        assert(precedes(keys, newest_first(), all[a], all[b]));
        lemma_text_lt_total(s.facts[rows[a]].created_at, s.facts[rows[b]].created_at);
    }
    if fits(s.facts[i], filter) && !rows.contains(i) {
        assert(marks[i]);
        let q = choose|q: int| 0 <= q < all.len() && all[q] == i;
        if q < rows.len() {
            assert(rows[q] == i);
        }
        assert(precedes(keys, newest_first(), all[a], all[q]));
        lemma_text_lt_total(s.facts[rows[a]].created_at, s.facts[i].created_at);
    }
}

/// Without a limit every fact that fits is listed.
pub proof fn law_everything_that_fits_is_listed(s: StoreModel, filter: FactFilterModel, i: int)
    requires
        0 <= i < s.facts.len(),
        filter.limit is None,
        fits(s.facts[i], filter),
    ensures
        browsed_rows(s, filter).contains(i),
{
    let keys = written_keys(s.facts);
    let marks = listed_marks(s.facts, filter);
    lemma_listed_once(keys, marks, newest_first());
    assert(marks[i]);
}

// --- the overview ----------------------------------------------------------

/// What the overview counts a row as: a fact that is current and was not withdrawn, one that
/// was, one that another took the place of; a run by its status; a workspace that somebody
/// named; a job that is still to be done.
pub proof fn law_the_overview_counts_each_row_once(
    facts: Seq<FactRowModel>,
    f: FactRowModel,
    runs: Seq<RunRecordModel>,
    r: RunRecordModel,
    status: RunStatus,
    workspaces: Seq<WorkspaceRowModel>,
    w: WorkspaceRowModel,
    jobs: Seq<JobRowModel>,
    j: JobRowModel,
)
    ensures
        tally(facts.push(f), is_retrievable()) == tally(facts, is_retrievable()) + (
        if f.superseded_by is None && f.status != FactStatus::Revoked {
            1nat
        } else {
            0nat
        }),
        tally(facts.push(f), is_revoked()) == tally(facts, is_revoked()) + (if f.status
            == FactStatus::Revoked {
            1nat
        } else {
            0nat
        }),
        tally(facts.push(f), is_superseded()) == tally(facts, is_superseded()) + (
        if f.superseded_by is Some {
            1nat
        } else {
            0nat
        }),
        tally(runs.push(r), run_in(status)) == tally(runs, run_in(status)) + (if r.status
            == status {
            1nat
        } else {
            0nat
        }),
        tally(workspaces.push(w), is_explicit()) == tally(workspaces, is_explicit()) + (
        if w.explicit {
            1nat
        } else {
            0nat
        }),
        tally(jobs.push(j), is_owed()) == tally(jobs, is_owed()) + (if j.status
            == JobStatus::Pending || j.status == JobStatus::Running {
            1nat
        } else {
            0nat
        }),
{
    assert(facts.push(f).drop_last() =~= facts);
    assert(runs.push(r).drop_last() =~= runs);
    assert(workspaces.push(w).drop_last() =~= workspaces);
    assert(jobs.push(j).drop_last() =~= jobs);
}

/// The runs touched last are listed first, each as it stands, and no more than were asked for.
pub proof fn law_the_runs_touched_last_are_listed_first(
    s: StoreModel,
    limit: usize,
    a: int,
    b: int,
)
    requires
        limit <= i64::MAX,
        0 <= a <= b < recent(s, limit).len(),
    ensures
        recent(s, limit).len() <= limit,
        recent(s, limit).len() < limit ==> recent(s, limit).len() >= s.runs.len(),
        !text_lt(recent(s, limit)[a].updated_at, recent(s, limit)[b].updated_at),
        exists|k: int|
            0 <= k < s.runs.len() && recent(s, limit)[a] == (RunRowModel {
                run_id: (#[trigger] s.runs[k]).id,
                task: s.runs[k].task,
                stage: s.runs[k].stage.wire(),
                status: s.runs[k].status.wire(),
                updated_at: s.runs[k].updated_at,
            }),
{
    let keys = touched_keys(s.runs);
    let marks = crate::curation::every(s.runs.len());
    let all = arranged(keys, marks, newest_first());
    law_arranged_lists_the_selected(keys, marks, newest_first());
    lemma_listed_once(keys, marks, newest_first());
    lemma_text_lt_irreflexive(s.runs[all[a]].updated_at);
    assert(marks[all[a]] && marks[all[b]]);
    if a < b {
        assert(precedes(keys, newest_first(), all[a], all[b]));
        lemma_text_lt_total(s.runs[all[a]].updated_at, s.runs[all[b]].updated_at);
    }
    lemma_all_rows(all, s.runs.len() as int, marks);
    let k = all[a];
    assert(0 <= k < s.runs.len());
    assert(recent(s, limit)[a].run_id == s.runs[k].id);
}

proof fn lemma_all_rows(rows: Seq<int>, n: int, marks: Seq<bool>)
    requires
        n >= 0,
        marks.len() == n,
        forall|k: int| 0 <= k < n ==> #[trigger] marks[k],
        forall|k: int| 0 <= k < n && #[trigger] marks[k] ==> rows.contains(k),
    ensures
        rows.len() >= n,
{
    vstd::set_lib::lemma_int_range(0, n);
    let range = vstd::set_lib::set_int_range(0, n);
    rows.lemma_cardinality_of_set();
    assert(range.subset_of(rows.to_set())) by {
        assert forall|k: int| range.contains(k) implies rows.to_set().contains(k) by {
            assert(marks[k]);
        }
    }
    vstd::set_lib::lemma_len_subset(range, rows.to_set());
}

/// Tidying a run up closes it where it is open, with the reason as its outcome; a run that is
/// closed, and every other, stays as it is.
pub proof fn law_tidying_closes_just_an_open_run(
    s: StoreModel,
    id: RunId,
    reason: Seq<char>,
    now: Seq<char>,
    i: int,
)
    requires
        0 <= i < s.runs.len(),
    ensures
        ({
            let after = tidy_step(s, id, reason, now);
            &&& after == (StoreModel { runs: after.runs, ..s })
            &&& after.runs.len() == s.runs.len()
            &&& after.runs[i] == if s.runs[i].id == id && s.runs[i].status == RunStatus::Open {
                RunRecordModel {
                    status: RunStatus::Completed,
                    stage: WorkflowStage::Completed,
                    outcome: Some(reason),
                    updated_at: now,
                    ..s.runs[i]
                }
            } else {
                s.runs[i]
            }
        }),
{
}

// --- duplicates ------------------------------------------------------------

/// Two titles are alike where they share at least two words, and at least half of the words of
/// the one with fewer.
pub proof fn law_titles_are_alike_that_share_half_their_words(
    left: Set<Seq<char>>,
    right: Set<Seq<char>>,
)
    requires
        left.finite(),
        right.finite(),
    ensures
        left.disjoint(right) ==> !overlap(left, right),
        left.len() >= 2 && left.subset_of(right) ==> overlap(left, right),
        left.intersect(right).len() < 2 ==> !overlap(left, right),
        left.intersect(right).len() >= 2 && 2 * left.intersect(right).len() >= left.len()
            ==> overlap(left, right),
        2 * left.intersect(right).len() < left.len() && 2 * left.intersect(right).len()
            < right.len() ==> !overlap(left, right),
{
    if left.disjoint(right) {
        assert(left.intersect(right) =~= Set::<Seq<char>>::empty());
    }
    if left.subset_of(right) {
        assert(left.intersect(right) =~= left);
    }
}

/// The words of a title are those of five letters and digits or more, without regard to case;
/// what stands between them does not matter.
pub proof fn law_the_words_of_a_title_are_the_longer_ones(
    rest: Seq<char>,
    between: char,
    word: Seq<char>,
)
    requires
        forall|i: int|
            0 <= i < word.len() ==> 'a' <= #[trigger] word[i] <= 'z' || 'A' <= word[i] <= 'Z'
                || '0' <= word[i] <= '9',
        between == ' ' || between == '-' || between == '_' || between == '.',
    ensures
        title_words(rest.push(between) + word) == if word.len() >= 5 {
            title_words(rest).insert(lowered(word))
        } else {
            title_words(rest)
        },
{
    let whole = rest.push(between) + word;
    let marks = marks_around(whole);
    let n = rest.len() as int;
    assert(whole[n] == between);
    crate::text_laws::law_a_cut_parts_a_text(rest, between, word, marks);
    assert forall|i: int| 0 <= i < n implies marks.take(n)[i] == #[trigger] marks_around(
        rest,
    )[i] by {
        assert(whole[i] == rest[i]);
    }
    crate::text_laws::lemma_pieces_see_no_further(rest, marks.take(n), marks_around(rest));
    assert forall|i: int| 0 <= i < word.len() implies !#[trigger] marks.skip(n + 1)[i] by {
        assert(whole[n + 1 + i] == word[i]);
        let c = word[i];
        assert('a' <= c <= 'z' || 'A' <= c <= 'Z' || '0' <= c <= '9');
    }
    crate::text_laws::law_an_uncut_text_is_one_piece(word, marks.skip(n + 1));
    let front = crate::text::pieces(rest, marks_around(rest));
    assert(crate::text::pieces(whole, marks) =~= front.push(word));
    front.lemma_filter_push(word, saying());
    let f = |w: Seq<char>| lowered(w);
    let before = words_between(rest, marks_around(rest));
    let all = words_between(whole, marks);
    if word.len() >= 5 {
        assert(all == before.push(word));
        assert(all.map_values(f) =~= before.map_values(f).push(lowered(word)));
        lemma_pushed_set(before.map_values(f), lowered(word));
    } else {
        assert(all == before);
    }
}

proof fn lemma_pushed_set(words: Seq<Seq<char>>, word: Seq<char>)
    ensures
        words.push(word).to_set() == words.to_set().insert(word),
{
    let all = words.push(word);
    assert forall|w: Seq<char>| all.to_set().contains(w) == words.to_set().insert(
        word,
    ).contains(w) by {
        if all.contains(w) {
            let i = choose|i: int| 0 <= i < all.len() && all[i] == w;
            if i < words.len() {
                assert(words[i] == w);
                assert(words.contains(w));
            }
        }
        if words.contains(w) {
            let i = choose|i: int| 0 <= i < words.len() && words[i] == w;
            assert(all[i] == w);
        }
        assert(all[words.len() as int] == word);
    }
    assert(all.to_set() =~= words.to_set().insert(word));
}

/// Two facts are paired just where both are listed, are filed under the same namespace and have
/// titles that are alike.
pub proof fn law_alike_facts_are_paired(facts: Seq<FactModel>, i: int, j: int)
    requires
        0 <= i < j < facts.len(),
        facts[i].namespace == facts[j].namespace,
        overlap(title_words(facts[i].title), title_words(facts[j].title)),
    ensures
        alike_from(facts, 0, 1).contains((facts[i], facts[j])),
{
    lemma_paired(facts, 0, 1, i, j);
}

proof fn lemma_paired(facts: Seq<FactModel>, a: int, b: int, i: int, j: int)
    requires
        0 <= a < b,
        a < i || a == i && b <= j,
        0 <= i < j < facts.len(),
        facts[i].namespace == facts[j].namespace,
        overlap(title_words(facts[i].title), title_words(facts[j].title)),
    ensures
        alike_from(facts, a, b).contains((facts[i], facts[j])),
    decreases facts.len() - a, facts.len() - b,
{
    let pair = (facts[i], facts[j]);
    let all = alike_from(facts, a, b);
    if b >= facts.len() {
        lemma_paired(facts, a + 1, a + 2, i, j);
    } else if a == i && b == j {
        assert(all[0] == pair);
    } else {
        lemma_paired(facts, a, b + 1, i, j);
        let rest = alike_from(facts, a, b + 1);
        let k = choose|k: int| 0 <= k < rest.len() && rest[k] == pair;
        if crate::curation::alike(facts[a], facts[b]) {
            assert(all[k + 1] == pair);
        }
    }
}

/// Whatever is paired is alike: filed under the same namespace, with titles that are alike, the
/// earlier first.
pub proof fn law_just_alike_facts_are_paired(facts: Seq<FactModel>, a: int, b: int, k: int)
    requires
        0 <= a < b,
        0 <= k < alike_from(facts, a, b).len(),
    ensures
        ({
            let (left, right) = alike_from(facts, a, b)[k];
            &&& left.namespace == right.namespace
            &&& overlap(title_words(left.title), title_words(right.title))
            &&& exists|i: int, j: int|
                0 <= i < j < facts.len() && left == #[trigger] facts[i] && right
                    == #[trigger] facts[j]
        }),
    decreases facts.len() - a, facts.len() - b,
{
    if a < facts.len() {
        if b >= facts.len() {
            law_just_alike_facts_are_paired(facts, a + 1, a + 2, k);
        } else if crate::curation::alike(facts[a], facts[b]) {
            if k > 0 {
                law_just_alike_facts_are_paired(facts, a, b + 1, k - 1);
                assert(alike_from(facts, a, b)[k] == alike_from(facts, a, b + 1)[k - 1]);
            } else {
                assert(alike_from(facts, a, b)[0] == (facts[a], facts[b]));
            }
        } else {
            law_just_alike_facts_are_paired(facts, a, b + 1, k);
        }
    }
}

// --- namespaces ------------------------------------------------------------

/// The namespaces are listed with how many current facts each holds, the one with the most
/// first, and by name where they hold as many.
pub proof fn law_the_largest_namespace_is_listed_first(s: StoreModel, a: int, b: int)
    requires
        s.facts.len() <= u64::MAX && s.facts.len() <= usize::MAX,
        0 <= a < b < namespace_sizes(s).len(),
    ensures
        ({
            let sizes = namespace_sizes(s);
            &&& sizes[a].1 == tally(s.facts, live_in(sizes[a].0))
            &&& sizes[a].1 >= sizes[b].1
            &&& sizes[a].1 == sizes[b].1 ==> !text_lt(sizes[b].0, sizes[a].0)
        }),
{
    let names = live_namespaces(s.facts);
    let keys = size_keys(s.facts);
    let marks = crate::curation::every(names.len());
    let order = arranged(keys, marks, ascending());
    law_arranged_lists_the_selected(keys, marks, ascending());
    assert(precedes(keys, ascending(), order[a], order[b]));
    assert(marks[order[a]] && marks[order[b]]);
    crate::rows::lemma_tally_bound(s.facts, live_in(names[order[a]]));
    crate::rows::lemma_tally_bound(s.facts, live_in(names[order[b]]));
    lemma_text_lt_irreflexive(names[order[a]]);
    lemma_text_lt_total(names[order[a]], names[order[b]]);
}

/// A fact counts for a namespace where it is filed under it, is current and was not withdrawn,
/// and a namespace is listed just where some fact counts for it.
pub proof fn law_just_current_facts_count_for_a_namespace(
    facts: Seq<FactRowModel>,
    name: Seq<char>,
    f: FactRowModel,
)
    ensures
        tally(facts.push(f), live_in(name)) == tally(facts, live_in(name)) + (if f.namespace
            == Some(name) && f.superseded_by is None && f.status != FactStatus::Revoked {
            1nat
        } else {
            0nat
        }),
        live_namespaces(facts).contains(name) <==> tally(facts, live_in(name)) > 0,
    decreases facts.len(),
{
    assert(facts.push(f).drop_last() =~= facts);
    if facts.len() > 0 {
        let front = facts.drop_last();
        let last = facts.last();
        law_just_current_facts_count_for_a_namespace(front, name, last);
        assert(front.push(last) =~= facts);
        let before = live_namespaces(front);
        let all = live_namespaces(facts);
        if before.contains(name) {
            let k = choose|k: int| 0 <= k < before.len() && before[k] == name;
            assert(all[k] == name);
        }
        if all.contains(name) && !before.contains(name) {
            let k = choose|k: int| 0 <= k < all.len() && all[k] == name;
            if k < before.len() {
                assert(before[k] == name);
            }
        }
        if all.len() > before.len() {
            assert(all[before.len() as int] == last.namespace->0);
        }
    }
}

/// A fact that is not there cannot be corrected, and says so; and neither a fact nor a
/// correction takes an identifier that a fact has.
pub proof fn law_a_refused_fact_says_why(
    s: StoreModel,
    command: RememberCommandModel,
    context: FactContextModel,
    id: FactId,
    title: Seq<char>,
    body: Seq<char>,
    replacement: FactId,
    now: Seq<char>,
    k: int,
)
    ensures
        (forall|i: int| 0 <= i < s.facts.len() ==> (#[trigger] s.facts[i]).id != id) ==> edit_step(
            s,
            id,
            title,
            body,
            replacement,
            now,
        ) == (
            Err::<FactId, StoreErrorModel>(
                StoreErrorModel::Serialization("no fact "@ + uuid_text(id.0)),
            ),
            s,
        ),
        0 <= k < s.facts.len() && s.facts[k].id == replacement ==> {
            &&& edit_step(s, id, title, body, replacement, now).0 is Err
            &&& edit_step(s, id, title, body, replacement, now).1 == s
        },
        0 <= k < s.facts.len() && s.facts[k].id == id && unanswered(s, command.operation_id)
            ==> remember_step(s, command, None, context, id, now) == (
            Err::<FactId, StoreErrorModel>(
                StoreErrorModel::Database("UNIQUE constraint failed: "@ + "facts.id"@),
            ),
            s,
        ),
{
    if forall|i: int| 0 <= i < s.facts.len() ==> (#[trigger] s.facts[i]).id != id {
        lemma_no_first(s.facts, is_fact(id));
    }
    if unanswered(s, command.operation_id) {
        lemma_no_first(s.operations, is_operation(command.operation_id));
    }
}

/// The pairs that are shown are the first of those found, as many as were asked for and one where
/// none was; they are looked for in what is browsed without a filter, among the first five
/// hundred.
pub proof fn law_as_many_pairs_are_shown_as_asked_for(s: StoreModel, limit: usize)
    requires
        duplicates_of(s, limit) is Ok,
    ensures
        ({
            let filter = FactFilterModel {
                namespace: None,
                scope: None,
                kind: None,
                status: None,
                text: None,
                limit: Some(500),
            };
            let pairs = duplicates_of(s, limit)->Ok_0;
            let browsed = facts_of(s, browsed_rows(s, filter));
            let all = alike_from(browsed->Ok_0, 0, 1);
            &&& browsed is Ok
            &&& limit == 0 && all.len() > 0 ==> pairs == all.take(1)
            &&& 0 < limit < all.len() ==> pairs == all.take(limit as int)
            &&& all.len() <= limit || all.len() == 0 ==> pairs == all
        }),
{
    let pairs = duplicates_of(s, limit)->Ok_0;
    assert(pairs.take(pairs.len() as int) =~= pairs);
}

/// A merge that is refused says why: a fact is not merged into itself, and not into one that is
/// not there.
pub proof fn law_a_refused_merge_says_why(
    s: StoreModel,
    keep: FactId,
    duplicate: FactId,
    now: Seq<char>,
    k: int,
)
    ensures
        merge_step(s, keep, keep, now) == (
            Err::<(), StoreErrorModel>(
                StoreErrorModel::Serialization("a fact cannot be merged into itself"@),
            ),
            s,
        ),
        0 <= k < s.facts.len() && s.facts[k].id == duplicate && (forall|i: int|
            0 <= i < s.facts.len() ==> (#[trigger] s.facts[i]).id != keep) ==> merge_step(
            s,
            keep,
            duplicate,
            now,
        ) == (
            Err::<(), StoreErrorModel>(StoreErrorModel::Database("FOREIGN KEY constraint failed"@)),
            s,
        ),
{
    if 0 <= k < s.facts.len() && s.facts[k].id == duplicate && (forall|i: int|
        0 <= i < s.facts.len() ==> (#[trigger] s.facts[i]).id != keep) {
        lemma_first_is_first(s.facts, is_fact(duplicate));
        assert(is_fact(duplicate)(s.facts[k]));
    }
}

} // verus!
